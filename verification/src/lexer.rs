//! The lexer: source text to tokens, each with the line and column it starts
//! at.
//!
//! The value of a number literal is computed by the embedder from the text
//! of the literal.
use vstd::prelude::*;
use vstd::string::*;
use vstd::std_specs::cmp::PartialEqSpecImpl;
use crate::error::{error_at, ErrorKind, GroveError, GroveResult, SpecError};
use crate::number::{equal, num_eq};
use crate::text::{chars_of, push_text, str_equal, string_of};

verus! {

/// The kinds of token.
#[derive(Debug, Clone)]
pub enum TokenKind {
    /// A number literal, by its bit pattern.
    Number(u64),
    StringLit(String),
    True,
    False,
    Nil,
    Identifier(String),
    Local,
    Let,
    Fn,
    Blueprint,
    Build,
    End,
    If,
    Then,
    ElseIf,
    Else,
    For,
    In,
    Do,
    While,
    Repeat,
    Until,
    Return,
    Break,
    Continue,
    And,
    Or,
    Not,
    Plus,
    Minus,
    Star,
    Slash,
    Percent,
    Caret,
    DotDot,
    Hash,
    Equal,
    NotEqual,
    TildeEqual,
    Less,
    LessEqual,
    Greater,
    GreaterEqual,
    Assign,
    LeftParen,
    RightParen,
    LeftBracket,
    RightBracket,
    LeftBrace,
    RightBrace,
    Comma,
    Dot,
    Colon,
    Eof,
}

/// The mathematical content of a [`TokenKind`].
pub ghost enum SpecTokenKind {
    Number(u64),
    StringLit(Seq<char>),
    True,
    False,
    Nil,
    Identifier(Seq<char>),
    Local,
    Let,
    Fn,
    Blueprint,
    Build,
    End,
    If,
    Then,
    ElseIf,
    Else,
    For,
    In,
    Do,
    While,
    Repeat,
    Until,
    Return,
    Break,
    Continue,
    And,
    Or,
    Not,
    Plus,
    Minus,
    Star,
    Slash,
    Percent,
    Caret,
    DotDot,
    Hash,
    Equal,
    NotEqual,
    TildeEqual,
    Less,
    LessEqual,
    Greater,
    GreaterEqual,
    Assign,
    LeftParen,
    RightParen,
    LeftBracket,
    RightBracket,
    LeftBrace,
    RightBrace,
    Comma,
    Dot,
    Colon,
    Eof,
}

/// A token: its kind, and the line and column it starts at.
#[derive(Debug, Clone)]
pub struct Token {
    pub kind: TokenKind,
    pub line: usize,
    pub column: usize,
}

/// The mathematical content of a [`Token`].
pub ghost struct SpecToken {
    pub kind: SpecTokenKind,
    pub line: usize,
    pub column: usize,
}

impl View for TokenKind {
    type V = SpecTokenKind;

    open spec fn view(&self) -> SpecTokenKind {
        match self {
            TokenKind::Number(n) => SpecTokenKind::Number(*n),
            TokenKind::StringLit(s) => SpecTokenKind::StringLit(s@),
            TokenKind::True => SpecTokenKind::True,
            TokenKind::False => SpecTokenKind::False,
            TokenKind::Nil => SpecTokenKind::Nil,
            TokenKind::Identifier(s) => SpecTokenKind::Identifier(s@),
            TokenKind::Local => SpecTokenKind::Local,
            TokenKind::Let => SpecTokenKind::Let,
            TokenKind::Fn => SpecTokenKind::Fn,
            TokenKind::Blueprint => SpecTokenKind::Blueprint,
            TokenKind::Build => SpecTokenKind::Build,
            TokenKind::End => SpecTokenKind::End,
            TokenKind::If => SpecTokenKind::If,
            TokenKind::Then => SpecTokenKind::Then,
            TokenKind::ElseIf => SpecTokenKind::ElseIf,
            TokenKind::Else => SpecTokenKind::Else,
            TokenKind::For => SpecTokenKind::For,
            TokenKind::In => SpecTokenKind::In,
            TokenKind::Do => SpecTokenKind::Do,
            TokenKind::While => SpecTokenKind::While,
            TokenKind::Repeat => SpecTokenKind::Repeat,
            TokenKind::Until => SpecTokenKind::Until,
            TokenKind::Return => SpecTokenKind::Return,
            TokenKind::Break => SpecTokenKind::Break,
            TokenKind::Continue => SpecTokenKind::Continue,
            TokenKind::And => SpecTokenKind::And,
            TokenKind::Or => SpecTokenKind::Or,
            TokenKind::Not => SpecTokenKind::Not,
            TokenKind::Plus => SpecTokenKind::Plus,
            TokenKind::Minus => SpecTokenKind::Minus,
            TokenKind::Star => SpecTokenKind::Star,
            TokenKind::Slash => SpecTokenKind::Slash,
            TokenKind::Percent => SpecTokenKind::Percent,
            TokenKind::Caret => SpecTokenKind::Caret,
            TokenKind::DotDot => SpecTokenKind::DotDot,
            TokenKind::Hash => SpecTokenKind::Hash,
            TokenKind::Equal => SpecTokenKind::Equal,
            TokenKind::NotEqual => SpecTokenKind::NotEqual,
            TokenKind::TildeEqual => SpecTokenKind::TildeEqual,
            TokenKind::Less => SpecTokenKind::Less,
            TokenKind::LessEqual => SpecTokenKind::LessEqual,
            TokenKind::Greater => SpecTokenKind::Greater,
            TokenKind::GreaterEqual => SpecTokenKind::GreaterEqual,
            TokenKind::Assign => SpecTokenKind::Assign,
            TokenKind::LeftParen => SpecTokenKind::LeftParen,
            TokenKind::RightParen => SpecTokenKind::RightParen,
            TokenKind::LeftBracket => SpecTokenKind::LeftBracket,
            TokenKind::RightBracket => SpecTokenKind::RightBracket,
            TokenKind::LeftBrace => SpecTokenKind::LeftBrace,
            TokenKind::RightBrace => SpecTokenKind::RightBrace,
            TokenKind::Comma => SpecTokenKind::Comma,
            TokenKind::Dot => SpecTokenKind::Dot,
            TokenKind::Colon => SpecTokenKind::Colon,
            TokenKind::Eof => SpecTokenKind::Eof,
        }
    }
}

impl View for Token {
    type V = SpecToken;

    open spec fn view(&self) -> SpecToken {
        SpecToken { kind: self.kind@, line: self.line, column: self.column }
    }
}

/// The contents of a sequence of tokens.
pub open spec fn tokens_view(tokens: Seq<Token>) -> Seq<SpecToken> {
    Seq::new(tokens.len(), |i: int| tokens[i]@)
}

/// Equality of token kinds: the same kind with the same text; two numbers
/// are equal where they are numerically equal.
pub open spec fn kinds_equal(a: SpecTokenKind, b: SpecTokenKind) -> bool {
    match (a, b) {
        (SpecTokenKind::Number(x), SpecTokenKind::Number(y)) => num_eq(x, y),
        (SpecTokenKind::Number(_), _) => false,
        (_, SpecTokenKind::Number(_)) => false,
        _ => a == b,
    }
}

impl TokenKind {
    /// Whether the two kinds are equal.
    pub fn equals(&self, other: &TokenKind) -> (r: bool)
        ensures
            r == kinds_equal(self@, other@),
    {
        match (self, other) {
            (TokenKind::Number(a), TokenKind::Number(b)) => equal(*a, *b),
            (TokenKind::Number(_), _) => false,
            (_, TokenKind::Number(_)) => false,
            (TokenKind::StringLit(a), TokenKind::StringLit(b)) => str_equal(a.as_str(), b.as_str()),
            (TokenKind::StringLit(_), _) => false,
            (_, TokenKind::StringLit(_)) => false,
            (TokenKind::Identifier(a), TokenKind::Identifier(b)) => str_equal(
                a.as_str(),
                b.as_str(),
            ),
            (TokenKind::Identifier(_), _) => false,
            (_, TokenKind::Identifier(_)) => false,
            _ => self.same_kind(other),
        }
    }

    /// Whether the two are of the same kind, whatever text or value they carry.
    pub fn same_kind(&self, other: &TokenKind) -> (r: bool)
        ensures
            r == (kind_number(self@) == kind_number(other@)),
    {
        self.number() == other.number()
    }

    /// The place of the kind in the declaration of [`TokenKind`].
    pub fn number(&self) -> (n: u8)
        ensures
            n == kind_number(self@),
    {
        match self {
            TokenKind::Number(_) => 0,
            TokenKind::StringLit(_) => 1,
            TokenKind::True => 2,
            TokenKind::False => 3,
            TokenKind::Nil => 4,
            TokenKind::Identifier(_) => 5,
            TokenKind::Local => 6,
            TokenKind::Let => 7,
            TokenKind::Fn => 8,
            TokenKind::Blueprint => 9,
            TokenKind::Build => 10,
            TokenKind::End => 11,
            TokenKind::If => 12,
            TokenKind::Then => 13,
            TokenKind::ElseIf => 14,
            TokenKind::Else => 15,
            TokenKind::For => 16,
            TokenKind::In => 17,
            TokenKind::Do => 18,
            TokenKind::While => 19,
            TokenKind::Repeat => 20,
            TokenKind::Until => 21,
            TokenKind::Return => 22,
            TokenKind::Break => 23,
            TokenKind::Continue => 24,
            TokenKind::And => 25,
            TokenKind::Or => 26,
            TokenKind::Not => 27,
            TokenKind::Plus => 28,
            TokenKind::Minus => 29,
            TokenKind::Star => 30,
            TokenKind::Slash => 31,
            TokenKind::Percent => 32,
            TokenKind::Caret => 33,
            TokenKind::DotDot => 34,
            TokenKind::Hash => 35,
            TokenKind::Equal => 36,
            TokenKind::NotEqual => 37,
            TokenKind::TildeEqual => 38,
            TokenKind::Less => 39,
            TokenKind::LessEqual => 40,
            TokenKind::Greater => 41,
            TokenKind::GreaterEqual => 42,
            TokenKind::Assign => 43,
            TokenKind::LeftParen => 44,
            TokenKind::RightParen => 45,
            TokenKind::LeftBracket => 46,
            TokenKind::RightBracket => 47,
            TokenKind::LeftBrace => 48,
            TokenKind::RightBrace => 49,
            TokenKind::Comma => 50,
            TokenKind::Dot => 51,
            TokenKind::Colon => 52,
            TokenKind::Eof => 53,
        }
    }
}

/// The place of a kind in the declaration of [`TokenKind`]. Two kinds without
/// text or value that have the same place are the same.
pub open spec fn kind_number(k: SpecTokenKind) -> u8 {
    match k {
        SpecTokenKind::Number(_) => 0,
        SpecTokenKind::StringLit(_) => 1,
        SpecTokenKind::True => 2,
        SpecTokenKind::False => 3,
        SpecTokenKind::Nil => 4,
        SpecTokenKind::Identifier(_) => 5,
        SpecTokenKind::Local => 6,
        SpecTokenKind::Let => 7,
        SpecTokenKind::Fn => 8,
        SpecTokenKind::Blueprint => 9,
        SpecTokenKind::Build => 10,
        SpecTokenKind::End => 11,
        SpecTokenKind::If => 12,
        SpecTokenKind::Then => 13,
        SpecTokenKind::ElseIf => 14,
        SpecTokenKind::Else => 15,
        SpecTokenKind::For => 16,
        SpecTokenKind::In => 17,
        SpecTokenKind::Do => 18,
        SpecTokenKind::While => 19,
        SpecTokenKind::Repeat => 20,
        SpecTokenKind::Until => 21,
        SpecTokenKind::Return => 22,
        SpecTokenKind::Break => 23,
        SpecTokenKind::Continue => 24,
        SpecTokenKind::And => 25,
        SpecTokenKind::Or => 26,
        SpecTokenKind::Not => 27,
        SpecTokenKind::Plus => 28,
        SpecTokenKind::Minus => 29,
        SpecTokenKind::Star => 30,
        SpecTokenKind::Slash => 31,
        SpecTokenKind::Percent => 32,
        SpecTokenKind::Caret => 33,
        SpecTokenKind::DotDot => 34,
        SpecTokenKind::Hash => 35,
        SpecTokenKind::Equal => 36,
        SpecTokenKind::NotEqual => 37,
        SpecTokenKind::TildeEqual => 38,
        SpecTokenKind::Less => 39,
        SpecTokenKind::LessEqual => 40,
        SpecTokenKind::Greater => 41,
        SpecTokenKind::GreaterEqual => 42,
        SpecTokenKind::Assign => 43,
        SpecTokenKind::LeftParen => 44,
        SpecTokenKind::RightParen => 45,
        SpecTokenKind::LeftBracket => 46,
        SpecTokenKind::RightBracket => 47,
        SpecTokenKind::LeftBrace => 48,
        SpecTokenKind::RightBrace => 49,
        SpecTokenKind::Comma => 50,
        SpecTokenKind::Dot => 51,
        SpecTokenKind::Colon => 52,
        SpecTokenKind::Eof => 53,
    }
}

impl PartialEq for TokenKind {
    fn eq(&self, other: &Self) -> (r: bool) {
        self.equals(other)
    }
}

impl PartialEqSpecImpl for TokenKind {
    open spec fn obeys_eq_spec() -> bool {
        true
    }

    open spec fn eq_spec(&self, other: &Self) -> bool {
        kinds_equal(self@, other@)
    }
}

impl Token {
    /// The token of the given kind at the given line and column.
    pub fn new(kind: TokenKind, line: usize, column: usize) -> (t: Self)
        ensures
            t.kind == kind,
            t.line == line,
            t.column == column,
    {
        Self { kind, line, column }
    }
}

/// What the embedder's reading of number literals computes: the bit pattern
/// of the number that a text denotes, or nothing where it denotes none.
pub type ParseModel = spec_fn(Seq<char>) -> Option<u64>;

/// Whether a reader of number literals accepts every text.
pub open spec fn parse_total<P: Fn(&str) -> Option<u64>>(parse: P) -> bool {
    forall|t: &str| call_requires(parse, (t,))
}

/// Whether a reader of number literals gives one answer for each text.
pub open spec fn parse_fixed<P: Fn(&str) -> Option<u64>>(parse: P) -> bool {
    forall|a: &str, b: &str, x: Option<u64>, y: Option<u64>|
        a@ == b@ && call_ensures(parse, (a,), x) && call_ensures(parse, (b,), y) ==> x == y
}

/// The answer of a reader of number literals for `text`.
pub open spec fn parsed<P: Fn(&str) -> Option<u64>>(parse: P, text: Seq<char>) -> Option<u64> {
    let p = choose|p: (&str, Option<u64>)| p.0@ == text && call_ensures(parse, (p.0,), p.1);
    p.1
}

/// What a reader of number literals computes.
pub open spec fn parse_model<P: Fn(&str) -> Option<u64>>(parse: P) -> ParseModel {
    |text: Seq<char>| parsed(parse, text)
}

/// Whether `c` is ASCII whitespace.
pub open spec fn is_space(c: char) -> bool {
    c == ' ' || c == '\t' || c == '\n' || c == '\x0C' || c == '\r'
}

/// Whether `c` is an ASCII digit.
pub open spec fn is_digit(c: char) -> bool {
    '0' <= c <= '9'
}

/// Whether `c` is an ASCII letter.
pub open spec fn is_letter(c: char) -> bool {
    ('a' <= c <= 'z') || ('A' <= c <= 'Z')
}

/// Whether `c` can begin an identifier.
pub open spec fn is_word_start(c: char) -> bool {
    is_letter(c) || c == '_'
}

/// Whether `c` can continue an identifier.
pub open spec fn is_word_char(c: char) -> bool {
    is_letter(c) || is_digit(c) || c == '_'
}

/// The number of line breaks before `pos`.
pub open spec fn newlines_before(src: Seq<char>, pos: int) -> int
    decreases pos,
{
    if pos <= 0 || pos > src.len() {
        0
    } else if src[pos - 1] == '\n' {
        newlines_before(src, pos - 1) + 1
    } else {
        newlines_before(src, pos - 1)
    }
}

/// Where the line that holds `pos` begins.
pub open spec fn line_start(src: Seq<char>, pos: int) -> int
    decreases pos,
{
    if pos <= 0 || pos > src.len() {
        0
    } else if src[pos - 1] == '\n' {
        pos
    } else {
        line_start(src, pos - 1)
    }
}

/// The line of the character at `pos`, counted from 1.
pub open spec fn line_of(src: Seq<char>, pos: int) -> int {
    newlines_before(src, pos) + 1
}

/// The column of the character at `pos`, counted from 1.
pub open spec fn column_of(src: Seq<char>, pos: int) -> int {
    pos - line_start(src, pos) + 1
}

/// Where the whitespace that begins at `pos` ends.
pub open spec fn spaces_end(src: Seq<char>, pos: int) -> int
    decreases src.len() - pos,
{
    if 0 <= pos < src.len() && is_space(src[pos]) {
        spaces_end(src, pos + 1)
    } else {
        pos
    }
}

/// Where the line that `pos` lies in ends: at its line break, or at the end
/// of the source.
pub open spec fn line_end(src: Seq<char>, pos: int) -> int
    decreases src.len() - pos,
{
    if 0 <= pos < src.len() && src[pos] != '\n' {
        line_end(src, pos + 1)
    } else {
        pos
    }
}

/// Where the digits that begin at `pos` end.
pub open spec fn digits_end(src: Seq<char>, pos: int) -> int
    decreases src.len() - pos,
{
    if 0 <= pos < src.len() && is_digit(src[pos]) {
        digits_end(src, pos + 1)
    } else {
        pos
    }
}

/// Where the identifier characters that begin at `pos` end.
pub open spec fn word_end(src: Seq<char>, pos: int) -> int
    decreases src.len() - pos,
{
    if 0 <= pos < src.len() && is_word_char(src[pos]) {
        word_end(src, pos + 1)
    } else {
        pos
    }
}

/// Whether a comment begins at `pos`.
pub open spec fn comment_at(src: Seq<char>, pos: int) -> bool {
    0 <= pos && pos + 1 < src.len() && src[pos] == '-' && src[pos + 1] == '-'
}

/// Where the whitespace and the comments that begin at `pos` end.
pub open spec fn blank_end(src: Seq<char>, pos: int) -> int
    decreases src.len() - pos,
{
    let p = spaces_end(src, pos);
    if comment_at(src, p) && pos < line_end(src, p) <= src.len() {
        blank_end(src, line_end(src, p))
    } else {
        p
    }
}

/// The kind of the word `text`: a keyword, or an identifier.
pub open spec fn word_kind(text: Seq<char>) -> SpecTokenKind {
    if text == "local"@ {
        SpecTokenKind::Local
    } else if text == "let"@ {
        SpecTokenKind::Let
    } else if text == "fn"@ {
        SpecTokenKind::Fn
    } else if text == "blueprint"@ {
        SpecTokenKind::Blueprint
    } else if text == "build"@ {
        SpecTokenKind::Build
    } else if text == "end"@ {
        SpecTokenKind::End
    } else if text == "if"@ {
        SpecTokenKind::If
    } else if text == "then"@ {
        SpecTokenKind::Then
    } else if text == "elseif"@ {
        SpecTokenKind::ElseIf
    } else if text == "else"@ {
        SpecTokenKind::Else
    } else if text == "for"@ {
        SpecTokenKind::For
    } else if text == "in"@ {
        SpecTokenKind::In
    } else if text == "do"@ {
        SpecTokenKind::Do
    } else if text == "while"@ {
        SpecTokenKind::While
    } else if text == "repeat"@ {
        SpecTokenKind::Repeat
    } else if text == "until"@ {
        SpecTokenKind::Until
    } else if text == "return"@ {
        SpecTokenKind::Return
    } else if text == "break"@ {
        SpecTokenKind::Break
    } else if text == "continue"@ {
        SpecTokenKind::Continue
    } else if text == "and"@ {
        SpecTokenKind::And
    } else if text == "or"@ {
        SpecTokenKind::Or
    } else if text == "not"@ {
        SpecTokenKind::Not
    } else if text == "true"@ {
        SpecTokenKind::True
    } else if text == "false"@ {
        SpecTokenKind::False
    } else if text == "nil"@ {
        SpecTokenKind::Nil
    } else {
        SpecTokenKind::Identifier(text)
    }
}

/// What the character after a backslash stands for in a string literal.
pub open spec fn unescaped(c: char) -> Seq<char> {
    if c == 'n' {
        seq!['\n']
    } else if c == 't' {
        seq!['\t']
    } else if c == '\\' || c == '\'' || c == '"' {
        seq![c]
    } else {
        seq!['\\', c]
    }
}

/// A token as it is found in the source: its kind and where it ends, or the
/// message of the syntax error.
pub type Scanned = Result<(SpecTokenKind, int), Seq<char>>;

/// The rest of a string literal from `pos` on, after the characters `acc`:
/// its text and where it ends.
pub open spec fn string_rest(src: Seq<char>, pos: int, quote: char, acc: Seq<char>) -> Scanned
    decreases src.len() - pos,
{
    if pos < 0 || pos >= src.len() {
        Err("unterminated string"@)
    } else if src[pos] == quote {
        Ok((SpecTokenKind::StringLit(acc), pos + 1))
    } else if src[pos] == '\\' {
        if pos + 1 >= src.len() {
            Err("unterminated string escape"@)
        } else {
            string_rest(src, pos + 2, quote, acc + unescaped(src[pos + 1]))
        }
    } else {
        string_rest(src, pos + 1, quote, acc.push(src[pos]))
    }
}

/// Where the number literal that begins at `pos` ends: after its digits, and
/// after a point and further digits where these follow.
pub open spec fn number_end(src: Seq<char>, pos: int) -> int {
    let e = digits_end(src, pos);
    if 0 <= e && e + 1 < src.len() && src[e] == '.' && is_digit(src[e + 1]) {
        digits_end(src, e + 1)
    } else {
        e
    }
}

/// The message for a character that begins no token.
pub open spec fn unexpected(c: char) -> Seq<char> {
    "unexpected character '"@ + seq![c] + "'"@
}

/// Whether `c` follows at `pos`.
pub open spec fn next_is(src: Seq<char>, pos: int, c: char) -> bool {
    0 <= pos < src.len() && src[pos] == c
}

/// The operator or punctuation mark that begins at `pos`.
pub open spec fn scan_mark(src: Seq<char>, pos: int) -> Scanned {
    let c = src[pos];
    if c == '+' {
        Ok((SpecTokenKind::Plus, pos + 1))
    } else if c == '*' {
        Ok((SpecTokenKind::Star, pos + 1))
    } else if c == '/' {
        Ok((SpecTokenKind::Slash, pos + 1))
    } else if c == '%' {
        Ok((SpecTokenKind::Percent, pos + 1))
    } else if c == '^' {
        Ok((SpecTokenKind::Caret, pos + 1))
    } else if c == '#' {
        Ok((SpecTokenKind::Hash, pos + 1))
    } else if c == '(' {
        Ok((SpecTokenKind::LeftParen, pos + 1))
    } else if c == ')' {
        Ok((SpecTokenKind::RightParen, pos + 1))
    } else if c == '[' {
        Ok((SpecTokenKind::LeftBracket, pos + 1))
    } else if c == ']' {
        Ok((SpecTokenKind::RightBracket, pos + 1))
    } else if c == '{' {
        Ok((SpecTokenKind::LeftBrace, pos + 1))
    } else if c == '}' {
        Ok((SpecTokenKind::RightBrace, pos + 1))
    } else if c == ',' {
        Ok((SpecTokenKind::Comma, pos + 1))
    } else if c == ':' {
        Ok((SpecTokenKind::Colon, pos + 1))
    } else if c == '-' {
        Ok((SpecTokenKind::Minus, pos + 1))
    } else if c == '.' {
        if next_is(src, pos + 1, '.') {
            Ok((SpecTokenKind::DotDot, pos + 2))
        } else {
            Ok((SpecTokenKind::Dot, pos + 1))
        }
    } else if c == '=' {
        if next_is(src, pos + 1, '=') {
            Ok((SpecTokenKind::Equal, pos + 2))
        } else {
            Ok((SpecTokenKind::Assign, pos + 1))
        }
    } else if c == '~' {
        if next_is(src, pos + 1, '=') {
            Ok((SpecTokenKind::TildeEqual, pos + 2))
        } else {
            Err(unexpected(c))
        }
    } else if c == '!' {
        if next_is(src, pos + 1, '=') {
            Ok((SpecTokenKind::NotEqual, pos + 2))
        } else {
            Err(unexpected(c))
        }
    } else if c == '<' {
        if next_is(src, pos + 1, '=') {
            Ok((SpecTokenKind::LessEqual, pos + 2))
        } else {
            Ok((SpecTokenKind::Less, pos + 1))
        }
    } else if c == '>' {
        if next_is(src, pos + 1, '=') {
            Ok((SpecTokenKind::GreaterEqual, pos + 2))
        } else {
            Ok((SpecTokenKind::Greater, pos + 1))
        }
    } else {
        Err(unexpected(c))
    }
}

/// The token that begins at `pos`, where a character that is no whitespace
/// stands.
pub open spec fn scan(src: Seq<char>, pos: int, parse: ParseModel) -> Scanned {
    let c = src[pos];
    if is_digit(c) {
        let e = number_end(src, pos);
        match parse(src.subrange(pos, e)) {
            Some(value) => Ok((SpecTokenKind::Number(value), e)),
            None => Err("invalid number '"@ + src.subrange(pos, e) + "'"@),
        }
    } else if c == '"' || c == '\'' {
        string_rest(src, pos + 1, c, Seq::empty())
    } else if is_word_start(c) {
        Ok((word_kind(src.subrange(pos, word_end(src, pos))), word_end(src, pos)))
    } else {
        scan_mark(src, pos)
    }
}

/// The token at position `at`, with the line and column of that position.
pub open spec fn token_at(src: Seq<char>, at: int, kind: SpecTokenKind) -> SpecToken {
    SpecToken { kind, line: line_of(src, at) as usize, column: column_of(src, at) as usize }
}

/// The tokens of the source from `pos` on, after the tokens `acc`: the last
/// one is `Eof`. The first text that is no token makes a syntax error at the
/// position where it begins. Every token ends beyond the position where it
/// begins ([`scan_moves`]), so that the rest of the source is shorter each
/// time.
pub open spec fn lex_from(src: Seq<char>, pos: int, parse: ParseModel, acc: Seq<SpecToken>) -> Result<
    Seq<SpecToken>,
    SpecError,
>
    decreases src.len() - pos,
{
    let at = blank_end(src, pos);
    if at < 0 || at >= src.len() {
        Ok(acc.push(token_at(src, at, SpecTokenKind::Eof)))
    } else {
        match scan(src, at, parse) {
            Err(message) => Err(
                error_at(
                    ErrorKind::Syntax,
                    message,
                    line_of(src, at) as usize,
                    column_of(src, at) as usize,
                ),
            ),
            Ok((kind, end)) => if pos < end <= src.len() && !(kind is Eof) {
                lex_from(src, end, parse, acc.push(token_at(src, at, kind)))
            } else {
                Ok(acc.push(token_at(src, at, kind)))
            },
        }
    }
}

/// The tokens of a whole source.
pub open spec fn lex(src: Seq<char>, parse: ParseModel) -> Result<Seq<SpecToken>, SpecError> {
    lex_from(src, 0, parse, Seq::empty())
}

/// A run never ends before it begins, nor beyond the source.
pub proof fn runs_are_bounded(src: Seq<char>, pos: int)
    requires
        0 <= pos <= src.len(),
    ensures
        pos <= spaces_end(src, pos) <= src.len(),
        pos <= line_end(src, pos) <= src.len(),
        pos <= digits_end(src, pos) <= src.len(),
        pos <= word_end(src, pos) <= src.len(),
    decreases src.len() - pos,
{
    if pos < src.len() {
        runs_are_bounded(src, pos + 1);
    }
}

/// Whitespace and comments never end before they begin, nor beyond the
/// source.
pub proof fn blank_is_bounded(src: Seq<char>, pos: int)
    requires
        0 <= pos <= src.len(),
    ensures
        pos <= blank_end(src, pos) <= src.len(),
    decreases src.len() - pos,
{
    runs_are_bounded(src, pos);
    let p = spaces_end(src, pos);
    runs_are_bounded(src, p);
    if comment_at(src, p) && pos < line_end(src, p) <= src.len() {
        blank_is_bounded(src, line_end(src, p));
    }
}

/// Lines and columns count from 1 and never pass the position by more than
/// one.
pub proof fn positions_are_bounded(src: Seq<char>, pos: int)
    requires
        0 <= pos <= src.len(),
    ensures
        0 <= newlines_before(src, pos) <= pos,
        0 <= line_start(src, pos) <= pos,
        1 <= line_of(src, pos) <= pos + 1,
        1 <= column_of(src, pos) <= pos + 1,
    decreases pos,
{
    if pos > 0 {
        positions_are_bounded(src, pos - 1);
    }
}

proof fn string_rest_moves(src: Seq<char>, pos: int, quote: char, acc: Seq<char>)
    requires
        0 <= pos,
    ensures
        string_rest(src, pos, quote, acc) matches Ok((kind, end)) ==> pos < end <= src.len() && kind
            is StringLit,
    decreases src.len() - pos,
{
    if pos < src.len() && src[pos] != quote {
        if src[pos] == '\\' {
            if pos + 1 < src.len() {
                string_rest_moves(src, pos + 2, quote, acc + unescaped(src[pos + 1]));
            }
        } else {
            string_rest_moves(src, pos + 1, quote, acc.push(src[pos]));
        }
    }
}

/// A token ends beyond the position where it begins, within the source, and
/// no token that is read from a character is the end of input.
pub proof fn scan_moves(src: Seq<char>, pos: int, parse: ParseModel)
    requires
        0 <= pos < src.len(),
    ensures
        scan(src, pos, parse) matches Ok((kind, end)) ==> pos < end <= src.len() && !(kind is Eof),
{
    let c = src[pos];
    runs_are_bounded(src, pos + 1);
    if is_digit(c) {
        let e = digits_end(src, pos);
        assert(e == digits_end(src, pos + 1));
        if e + 1 < src.len() {
            runs_are_bounded(src, e + 1);
        }
    } else if c == '"' || c == '\'' {
        string_rest_moves(src, pos + 1, c, Seq::empty());
    } else if is_word_start(c) {
        assert(word_end(src, pos) == word_end(src, pos + 1));
    }
}

proof fn lex_from_ends(
    src: Seq<char>,
    pos: int,
    parse: ParseModel,
    acc: Seq<SpecToken>,
    tokens: Seq<SpecToken>,
)
    requires
        0 <= pos <= src.len(),
        forall|i: int| 0 <= i < acc.len() ==> !((#[trigger] acc[i]).kind is Eof),
        lex_from(src, pos, parse, acc) == Ok::<Seq<SpecToken>, SpecError>(tokens),
    ensures
        tokens.len() > 0,
        tokens.last().kind is Eof,
        forall|i: int| 0 <= i < tokens.len() - 1 ==> !((#[trigger] tokens[i]).kind is Eof),
    decreases src.len() - pos,
{
    let at = blank_end(src, pos);
    blank_is_bounded(src, pos);
    if at < src.len() {
        scan_moves(src, at, parse);
        if let Ok((kind, end)) = scan(src, at, parse) {
            lex_from_ends(src, end, parse, acc.push(token_at(src, at, kind)), tokens);
        }
    }
}

/// The tokens of a source end in the end of input, and hold it nowhere
/// else.
pub proof fn tokens_end_in_eof(src: Seq<char>, parse: ParseModel, tokens: Seq<SpecToken>)
    requires
        lex(src, parse) == Ok::<Seq<SpecToken>, SpecError>(tokens),
    ensures
        tokens.len() > 0,
        tokens.last().kind is Eof,
        forall|i: int| 0 <= i < tokens.len() - 1 ==> !((#[trigger] tokens[i]).kind is Eof),
{
    lex_from_ends(src, 0, parse, Seq::empty(), tokens);
}

/// Where the text of the `k`-th token that is read from `pos` on begins:
/// that of the first one where the whitespace and the comments from `pos` on
/// end, that of every other one where they end after the token before it.
pub open spec fn start_of(src: Seq<char>, pos: int, parse: ParseModel, k: nat) -> int
    decreases k,
{
    let at = blank_end(src, pos);
    if k == 0 || at < 0 || at >= src.len() {
        at
    } else {
        match scan(src, at, parse) {
            Ok((_, end)) => start_of(src, end, parse, (k - 1) as nat),
            Err(_) => at,
        }
    }
}

/// Whether `token` is the token whose text begins at the position `at` of
/// the source. Its line is one more than the number of line breaks before
/// `at`, and its column is one more than the number of characters between
/// the last of these line breaks and `at`. Its kind is what the text at `at`
/// reads as, and `Eof` where `at` is the end of the source.
pub open spec fn placed(src: Seq<char>, parse: ParseModel, token: SpecToken, at: int) -> bool {
    &&& 0 <= at <= src.len()
    &&& token.line == line_of(src, at)
    &&& token.column == column_of(src, at)
    &&& if at == src.len() {
        token.kind is Eof
    } else {
        scan(src, at, parse) is Ok && scan(src, at, parse)->Ok_0.0 == token.kind
    }
}

proof fn lex_from_places(
    src: Seq<char>,
    pos: int,
    parse: ParseModel,
    acc: Seq<SpecToken>,
    tokens: Seq<SpecToken>,
)
    requires
        src.len() < usize::MAX,
        0 <= pos <= src.len(),
        lex_from(src, pos, parse, acc) == Ok::<Seq<SpecToken>, SpecError>(tokens),
    ensures
        acc.len() < tokens.len(),
        forall|i: int| 0 <= i < acc.len() ==> #[trigger] tokens[i] == acc[i],
        forall|i: int|
            acc.len() <= i < tokens.len() ==> placed(
                src,
                parse,
                #[trigger] tokens[i],
                start_of(src, pos, parse, (i - acc.len()) as nat),
            ),
    decreases src.len() - pos,
{
    let at = blank_end(src, pos);
    blank_is_bounded(src, pos);
    positions_are_bounded(src, at);
    if at >= src.len() {
        let t = token_at(src, at, SpecTokenKind::Eof);
        assert(tokens == acc.push(t));
        assert(placed(src, parse, t, at));
    } else {
        match scan(src, at, parse) {
            Err(_) => {},
            Ok((kind, end)) => {
                let t = token_at(src, at, kind);
                assert(placed(src, parse, t, at));
                let next = acc.push(t);
                if pos < end <= src.len() && !(kind is Eof) {
                    lex_from_places(src, end, parse, next, tokens);
                    assert(tokens[acc.len() as int] == next[acc.len() as int]);
                    assert forall|i: int| acc.len() <= i < tokens.len() implies placed(
                        src,
                        parse,
                        #[trigger] tokens[i],
                        start_of(src, pos, parse, (i - acc.len()) as nat),
                    ) by {
                        if i > acc.len() {
                            assert(start_of(src, pos, parse, (i - acc.len()) as nat) == start_of(
                                src,
                                end,
                                parse,
                                (i - next.len()) as nat,
                            ));
                        }
                    }
                    assert forall|i: int| 0 <= i < acc.len() implies #[trigger] tokens[i]
                        == acc[i] by {
                        assert(tokens[i] == next[i]);
                    }
                } else {
                    assert(tokens == next);
                }
            },
        }
    }
}

/// Positions are faithful: every token that is read from the position `pos`
/// of a source on is reported at the line and column of the position where
/// its text begins, and is what that text reads as.
pub proof fn tokens_are_placed(src: Seq<char>, pos: int, parse: ParseModel, tokens: Seq<SpecToken>)
    requires
        src.len() < usize::MAX,
        0 <= pos <= src.len(),
        lex_from(src, pos, parse, Seq::empty()) == Ok::<Seq<SpecToken>, SpecError>(tokens),
    ensures
        forall|i: int|
            0 <= i < tokens.len() ==> placed(
                src,
                parse,
                #[trigger] tokens[i],
                start_of(src, pos, parse, i as nat),
            ),
{
    lex_from_places(src, pos, parse, Seq::empty(), tokens);
}

/// The lexer: the characters of the source, and the position, line and
/// column of the next one.
pub struct Lexer {
    source: Vec<char>,
    pos: usize,
    line: usize,
    column: usize,
}

impl Lexer {
    /// The characters of the source.
    pub closed spec fn source(&self) -> Seq<char> {
        self.source@
    }

    /// The position of the next character.
    pub closed spec fn position(&self) -> int {
        self.pos as int
    }

    /// The line and the column are those of the position, which lies within
    /// the source.
    pub closed spec fn well_formed(&self) -> bool {
        &&& self.pos <= self.source@.len()
        &&& self.source@.len() < usize::MAX
        &&& self.line == line_of(self.source@, self.pos as int)
        &&& self.column == column_of(self.source@, self.pos as int)
    }

    /// Whether `self` is `before`, moved to the position `pos`.
    pub closed spec fn moved_to(&self, before: &Self, pos: int) -> bool {
        &&& self.source == before.source
        &&& self.pos == pos
        &&& self.well_formed()
    }

    /// The lexer at the start of `source`.
    pub fn new(source: &str) -> (lexer: Self)
        requires
            source@.len() < usize::MAX,
        ensures
            lexer.well_formed(),
            lexer.source() == source@,
            lexer.position() == 0,
    {
        Self { source: chars_of(source), pos: 0, line: 1, column: 1 }
    }

    /// The next character, or `'\0'` at the end of the source.
    fn peek(&self) -> (c: char)
        requires
            self.well_formed(),
        ensures
            self.pos < self.source@.len() ==> c == self.source@[self.pos as int],
            self.pos >= self.source@.len() ==> c == '\0',
    {
        if self.pos < self.source.len() {
            self.source[self.pos]
        } else {
            '\0'
        }
    }

    /// The character after the next one, or `'\0'` where there is none.
    fn peek_next(&self) -> (c: char)
        requires
            self.well_formed(),
        ensures
            self.pos + 1 < self.source@.len() ==> c == self.source@[self.pos + 1],
            self.pos + 1 >= self.source@.len() ==> c == '\0',
    {
        if self.pos + 1 < self.source.len() {
            self.source[self.pos + 1]
        } else {
            '\0'
        }
    }

    /// Takes the next character.
    fn advance(&mut self) -> (c: char)
        requires
            old(self).well_formed(),
            old(self).pos < old(self).source@.len(),
        ensures
            final(self).moved_to(old(self), old(self).pos + 1),
            c == old(self).source@[old(self).pos as int],
    {
        proof {
            positions_are_bounded(self.source@, self.pos as int);
        }
        let ch = self.source[self.pos];
        self.pos += 1;
        if ch == '\n' {
            self.line += 1;
            self.column = 1;
        } else {
            self.column += 1;
        }
        ch
    }

    /// Skips whitespace and comments.
    fn skip_whitespace_and_comments(&mut self)
        requires
            old(self).well_formed(),
        ensures
            final(self).moved_to(old(self), blank_end(old(self).source@, old(self).pos as int)),
            old(self).pos <= final(self).pos,
    {
        loop
            invariant
                self.well_formed(),
                self.source == old(self).source,
                old(self).pos <= self.pos,
                blank_end(self.source@, self.pos as int) == blank_end(
                    old(self).source@,
                    old(self).pos as int,
                ),
            decreases self.source@.len() - self.pos,
        {
            let ghost begin = self.pos;
            while self.pos < self.source.len() && is_space_char(self.peek())
                invariant
                    self.well_formed(),
                    self.source == old(self).source,
                    begin <= self.pos,
                    spaces_end(self.source@, self.pos as int) == spaces_end(
                        self.source@,
                        begin as int,
                    ),
                decreases self.source@.len() - self.pos,
            {
                self.advance();
            }
            if self.peek() == '-' && self.peek_next() == '-' {
                let ghost dashes = self.pos;
                while self.pos < self.source.len() && self.peek() != '\n'
                    invariant
                        self.well_formed(),
                        self.source == old(self).source,
                        dashes <= self.pos,
                        dashes < self.source@.len(),
                        self.source@[dashes as int] == '-',
                        self.pos > dashes || self.pos == dashes,
                        line_end(self.source@, self.pos as int) == line_end(
                            self.source@,
                            dashes as int,
                        ),
                    decreases self.source@.len() - self.pos,
                {
                    self.advance();
                }
                proof {
                    runs_are_bounded(self.source@, self.pos as int);
                    assert(self.pos > dashes);
                }
            } else {
                return ;
            }
        }
    }

    /// Reads the number literal that begins at the position.
    fn read_number<P: Fn(&str) -> Option<u64>>(&mut self, line: usize, col: usize, parse: &P) -> (r:
        GroveResult<Token>)
        requires
            old(self).well_formed(),
            old(self).pos < old(self).source@.len(),
            is_digit(old(self).source@[old(self).pos as int]),
            parse_total(*parse),
        ensures
            final(self).moved_to(old(self), number_end(old(self).source@, old(self).pos as int)),
            old(self).pos < final(self).pos,
            r is Ok ==> !(r->Ok_0.kind is Eof),
            parse_fixed(*parse) ==> reads(
                r,
                final(self).pos as int,
                line,
                col,
                scan(old(self).source@, old(self).pos as int, parse_model(*parse)),
            ),
    {
        let start = self.pos;
        while self.pos < self.source.len() && is_digit_char(self.peek())
            invariant
                self.well_formed(),
                self.source == old(self).source,
                start <= self.pos,
                digits_end(self.source@, self.pos as int) == digits_end(self.source@, start as int),
            decreases self.source@.len() - self.pos,
        {
            self.advance();
        }
        proof {
            runs_are_bounded(self.source@, self.pos as int);
        }
        if self.peek() == '.' && is_digit_char(self.peek_next()) {
            self.advance();
            let ghost after = self.pos;
            while self.pos < self.source.len() && is_digit_char(self.peek())
                invariant
                    self.well_formed(),
                    self.source == old(self).source,
                    after <= self.pos,
                    digits_end(self.source@, self.pos as int) == digits_end(
                        self.source@,
                        after as int,
                    ),
                decreases self.source@.len() - self.pos,
            {
                self.advance();
            }
        }
        let text = string_of(&self.source, start, self.pos);
        let t = text.as_str();
        let value = parse(t);
        proof {
            if parse_fixed(*parse) {
                let w = (t, value);
                assert(w.0@ == text@ && call_ensures(*parse, (w.0,), w.1));
            }
        }
        match value {
            Some(v) => Ok(Token::new(TokenKind::Number(v), line, col)),
            None => {
                let mut m = String::new();
                push_text(&mut m, "invalid number '");
                push_text(&mut m, text.as_str());
                push_text(&mut m, "'");
                assert(m@ =~= "invalid number '"@ + text@ + "'"@);
                Err(GroveError::syntax(m.as_str(), line, col))
            },
        }
    }

    /// Reads the string literal whose opening quote stands at the position.
    fn read_string(&mut self, line: usize, col: usize) -> (r: GroveResult<Token>)
        requires
            old(self).well_formed(),
            old(self).pos < old(self).source@.len(),
        ensures
            final(self).well_formed(),
            final(self).source == old(self).source,
            old(self).pos < final(self).pos,
            r is Ok ==> !(r->Ok_0.kind is Eof),
            reads(
                r,
                final(self).pos as int,
                line,
                col,
                string_rest(
                    old(self).source@,
                    old(self).pos + 1,
                    old(self).source@[old(self).pos as int],
                    Seq::empty(),
                ),
            ),
    {
        let quote = self.advance();
        let mut s = String::new();
        let ghost begin = self.pos;
        loop
            invariant
                self.well_formed(),
                self.source == old(self).source,
                begin == old(self).pos + 1,
                begin <= self.pos,
                quote == old(self).source@[old(self).pos as int],
                string_rest(self.source@, self.pos as int, quote, s@) == string_rest(
                    self.source@,
                    begin as int,
                    quote,
                    Seq::empty(),
                ),
            decreases self.source@.len() - self.pos,
        {
            if self.pos >= self.source.len() {
                return Err(GroveError::syntax("unterminated string", line, col));
            }
            let ch = self.advance();
            if ch == quote {
                return Ok(Token::new(TokenKind::StringLit(s), line, col));
            }
            if ch == '\\' {
                if self.pos >= self.source.len() {
                    return Err(GroveError::syntax("unterminated string escape", line, col));
                }
                let esc = self.advance();
                let ghost before = s@;
                if esc == 'n' {
                    s.push('\n');
                } else if esc == 't' {
                    s.push('\t');
                } else if esc == '\\' || esc == '\'' || esc == '"' {
                    s.push(esc);
                } else {
                    s.push('\\');
                    s.push(esc);
                }
                assert(s@ =~= before + unescaped(esc));
            } else {
                s.push(ch);
            }
        }
    }

    /// Reads the identifier or keyword that begins at the position.
    fn read_identifier(&mut self, line: usize, col: usize) -> (r: GroveResult<Token>)
        requires
            old(self).well_formed(),
            old(self).pos < old(self).source@.len(),
            is_word_start(old(self).source@[old(self).pos as int]),
        ensures
            final(self).moved_to(old(self), word_end(old(self).source@, old(self).pos as int)),
            old(self).pos < final(self).pos,
            r is Ok,
            r->Ok_0@ == (SpecToken {
                kind: word_kind(
                    old(self).source@.subrange(
                        old(self).pos as int,
                        word_end(old(self).source@, old(self).pos as int),
                    ),
                ),
                line,
                column: col,
            }),
    {
        let start = self.pos;
        while self.pos < self.source.len() && is_word_char_exec(self.peek())
            invariant
                self.well_formed(),
                self.source == old(self).source,
                start <= self.pos,
                word_end(self.source@, self.pos as int) == word_end(self.source@, start as int),
            decreases self.source@.len() - self.pos,
        {
            self.advance();
        }
        let text = string_of(&self.source, start, self.pos);
        let kind = keyword_or_identifier(text);
        Ok(Token::new(kind, line, col))
    }

    /// Reads the operator or punctuation mark that begins at the position.
    fn read_mark(&mut self, line: usize, col: usize) -> (r: GroveResult<Token>)
        requires
            old(self).well_formed(),
            old(self).pos < old(self).source@.len(),
        ensures
            final(self).well_formed(),
            final(self).source == old(self).source,
            old(self).pos < final(self).pos,
            reads(
                r,
                final(self).pos as int,
                line,
                col,
                scan_mark(old(self).source@, old(self).pos as int),
            ),
    {
        let ch = self.advance();
        if ch == '+' {
            Ok(Token::new(TokenKind::Plus, line, col))
        } else if ch == '*' {
            Ok(Token::new(TokenKind::Star, line, col))
        } else if ch == '/' {
            Ok(Token::new(TokenKind::Slash, line, col))
        } else if ch == '%' {
            Ok(Token::new(TokenKind::Percent, line, col))
        } else if ch == '^' {
            Ok(Token::new(TokenKind::Caret, line, col))
        } else if ch == '#' {
            Ok(Token::new(TokenKind::Hash, line, col))
        } else if ch == '(' {
            Ok(Token::new(TokenKind::LeftParen, line, col))
        } else if ch == ')' {
            Ok(Token::new(TokenKind::RightParen, line, col))
        } else if ch == '[' {
            Ok(Token::new(TokenKind::LeftBracket, line, col))
        } else if ch == ']' {
            Ok(Token::new(TokenKind::RightBracket, line, col))
        } else if ch == '{' {
            Ok(Token::new(TokenKind::LeftBrace, line, col))
        } else if ch == '}' {
            Ok(Token::new(TokenKind::RightBrace, line, col))
        } else if ch == ',' {
            Ok(Token::new(TokenKind::Comma, line, col))
        } else if ch == ':' {
            Ok(Token::new(TokenKind::Colon, line, col))
        } else if ch == '-' {
            Ok(Token::new(TokenKind::Minus, line, col))
        } else if ch == '.' {
            if self.peek() == '.' {
                self.advance();
                Ok(Token::new(TokenKind::DotDot, line, col))
            } else {
                Ok(Token::new(TokenKind::Dot, line, col))
            }
        } else if ch == '=' {
            if self.peek() == '=' {
                self.advance();
                Ok(Token::new(TokenKind::Equal, line, col))
            } else {
                Ok(Token::new(TokenKind::Assign, line, col))
            }
        } else if ch == '~' {
            if self.peek() == '=' {
                self.advance();
                Ok(Token::new(TokenKind::TildeEqual, line, col))
            } else {
                Err(unexpected_error(ch, line, col))
            }
        } else if ch == '!' {
            if self.peek() == '=' {
                self.advance();
                Ok(Token::new(TokenKind::NotEqual, line, col))
            } else {
                Err(unexpected_error(ch, line, col))
            }
        } else if ch == '<' {
            if self.peek() == '=' {
                self.advance();
                Ok(Token::new(TokenKind::LessEqual, line, col))
            } else {
                Ok(Token::new(TokenKind::Less, line, col))
            }
        } else if ch == '>' {
            if self.peek() == '=' {
                self.advance();
                Ok(Token::new(TokenKind::GreaterEqual, line, col))
            } else {
                Ok(Token::new(TokenKind::Greater, line, col))
            }
        } else {
            Err(unexpected_error(ch, line, col))
        }
    }

    /// Reads the next token.
    fn next_token<P: Fn(&str) -> Option<u64>>(&mut self, parse: &P) -> (r: GroveResult<Token>)
        requires
            old(self).well_formed(),
            parse_total(*parse),
        ensures
            final(self).well_formed(),
            final(self).source == old(self).source,
            old(self).pos <= final(self).pos,
            r is Ok && !(r->Ok_0.kind is Eof) ==> old(self).pos < final(self).pos,
            r is Ok && r->Ok_0.kind is Eof ==> final(self).pos == final(self).source@.len(),
            parse_fixed(*parse) ==> next_token_is(
                old(self).source@,
                old(self).pos as int,
                parse_model(*parse),
                r,
                final(self).pos as int,
            ),
    {
        self.skip_whitespace_and_comments();
        let line = self.line;
        let col = self.column;
        if self.pos >= self.source.len() {
            return Ok(Token::new(TokenKind::Eof, line, col));
        }
        let ch = self.peek();
        if is_digit_char(ch) {
            return self.read_number(line, col, parse);
        }
        if ch == '"' || ch == '\'' {
            return self.read_string(line, col);
        }
        if is_word_start_char(ch) {
            return self.read_identifier(line, col);
        }
        self.read_mark(line, col)
    }

    /// The tokens of the source from the position on; the last one is `Eof`,
    /// and with it the lexer stands at the end of the source. `parse` gives
    /// the value of each number literal.
    pub fn tokenize<P: Fn(&str) -> Option<u64>>(&mut self, parse: &P) -> (r: GroveResult<Vec<Token>>)
        requires
            old(self).well_formed(),
            parse_total(*parse),
        ensures
            final(self).well_formed(),
            final(self).source() == old(self).source(),
            r is Ok ==> r->Ok_0@.len() > 0 && r->Ok_0@.last().kind is Eof,
            r is Ok ==> final(self).position() == final(self).source().len(),
            parse_fixed(*parse) ==> tokens_result(r) == lex_from(
                old(self).source(),
                old(self).position(),
                parse_model(*parse),
                Seq::empty(),
            ),
    {
        let mut tokens: Vec<Token> = Vec::new();
        assert(tokens_view(tokens@) =~= Seq::<SpecToken>::empty());
        loop
            invariant
                self.well_formed(),
                self.source == old(self).source,
                parse_total(*parse),
                parse_fixed(*parse) ==> lex_from(
                    self.source@,
                    self.pos as int,
                    parse_model(*parse),
                    tokens_view(tokens@),
                ) == lex_from(
                    old(self).source@,
                    old(self).pos as int,
                    parse_model(*parse),
                    Seq::empty(),
                ),
            decreases self.source@.len() - self.pos,
        {
            let ghost before = tokens_view(tokens@);
            proof {
                blank_is_bounded(self.source@, self.pos as int);
            }
            let tok = match self.next_token(parse) {
                Ok(t) => t,
                Err(e) => {
                    return Err(e);
                },
            };
            let is_eof = tok.kind.same_kind(&TokenKind::Eof);
            tokens.push(tok);
            assert(tokens_view(tokens@) =~= before.push(tok@));
            if is_eof {
                return Ok(tokens);
            }
        }
    }
}

/// Whether `r`, with the lexer left at `end`, is what `expected` says: the
/// token of that kind at the given line and column, or the syntax error with
/// that message there.
pub open spec fn reads(r: GroveResult<Token>, end: int, line: usize, col: usize, expected: Scanned) -> bool {
    match expected {
        Ok((kind, stop)) => r is Ok && r->Ok_0@ == (SpecToken { kind, line, column: col }) && end
            == stop,
        Err(message) => r is Err && r->Err_0@ == error_at(ErrorKind::Syntax, message, line, col),
    }
}

/// Whether `r`, with the lexer left at `end`, is the token that follows the
/// whitespace and comments at `pos`.
pub open spec fn next_token_is(
    src: Seq<char>,
    pos: int,
    parse: ParseModel,
    r: GroveResult<Token>,
    end: int,
) -> bool {
    let at = blank_end(src, pos);
    if at >= src.len() {
        r is Ok && r->Ok_0@ == token_at(src, at, SpecTokenKind::Eof) && end == at
    } else {
        match scan(src, at, parse) {
            Err(message) => r is Err && r->Err_0@ == error_at(
                ErrorKind::Syntax,
                message,
                line_of(src, at) as usize,
                column_of(src, at) as usize,
            ),
            Ok((kind, stop)) => r is Ok && r->Ok_0@ == token_at(src, at, kind) && end == stop,
        }
    }
}

/// What the result of lexing stands for.
pub open spec fn tokens_result(r: GroveResult<Vec<Token>>) -> Result<Seq<SpecToken>, SpecError> {
    match r {
        Ok(tokens) => Ok(tokens_view(tokens@)),
        Err(e) => Err(e@),
    }
}

fn is_space_char(c: char) -> (r: bool)
    ensures
        r == is_space(c),
{
    c == ' ' || c == '\t' || c == '\n' || c == '\x0C' || c == '\r'
}

fn is_digit_char(c: char) -> (r: bool)
    ensures
        r == is_digit(c),
{
    '0' <= c && c <= '9'
}

fn is_word_start_char(c: char) -> (r: bool)
    ensures
        r == is_word_start(c),
{
    ('a' <= c && c <= 'z') || ('A' <= c && c <= 'Z') || c == '_'
}

fn is_word_char_exec(c: char) -> (r: bool)
    ensures
        r == is_word_char(c),
{
    is_word_start_char(c) || is_digit_char(c)
}

/// The error for a character that begins no token.
fn unexpected_error(c: char, line: usize, col: usize) -> (e: GroveError)
    ensures
        e@ == error_at(ErrorKind::Syntax, unexpected(c), line, col),
{
    let mut m = String::new();
    push_text(&mut m, "unexpected character '");
    m.push(c);
    push_text(&mut m, "'");
    assert(m@ =~= unexpected(c));
    GroveError::syntax(m.as_str(), line, col)
}

/// The kind of the word `text`: a keyword, or an identifier.
fn keyword_or_identifier(text: String) -> (kind: TokenKind)
    ensures
        kind@ == word_kind(text@),
{
    let t = text.as_str();
    if str_equal(t, "local") {
        TokenKind::Local
    } else if str_equal(t, "let") {
        TokenKind::Let
    } else if str_equal(t, "fn") {
        TokenKind::Fn
    } else if str_equal(t, "blueprint") {
        TokenKind::Blueprint
    } else if str_equal(t, "build") {
        TokenKind::Build
    } else if str_equal(t, "end") {
        TokenKind::End
    } else if str_equal(t, "if") {
        TokenKind::If
    } else if str_equal(t, "then") {
        TokenKind::Then
    } else if str_equal(t, "elseif") {
        TokenKind::ElseIf
    } else if str_equal(t, "else") {
        TokenKind::Else
    } else if str_equal(t, "for") {
        TokenKind::For
    } else if str_equal(t, "in") {
        TokenKind::In
    } else if str_equal(t, "do") {
        TokenKind::Do
    } else if str_equal(t, "while") {
        TokenKind::While
    } else if str_equal(t, "repeat") {
        TokenKind::Repeat
    } else if str_equal(t, "until") {
        TokenKind::Until
    } else if str_equal(t, "return") {
        TokenKind::Return
    } else if str_equal(t, "break") {
        TokenKind::Break
    } else if str_equal(t, "continue") {
        TokenKind::Continue
    } else if str_equal(t, "and") {
        TokenKind::And
    } else if str_equal(t, "or") {
        TokenKind::Or
    } else if str_equal(t, "not") {
        TokenKind::Not
    } else if str_equal(t, "true") {
        TokenKind::True
    } else if str_equal(t, "false") {
        TokenKind::False
    } else if str_equal(t, "nil") {
        TokenKind::Nil
    } else {
        TokenKind::Identifier(text)
    }
}


} // verus!
