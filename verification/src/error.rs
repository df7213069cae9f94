//! Structured errors with a source position.
use vstd::prelude::*;
use vstd::string::*;
use crate::text::{decimal, push_decimal, push_text};

verus! {

/// The kinds of failure that the pipeline reports.
#[derive(Debug, Clone, Copy, PartialEq, Eq, Structural)]
pub enum ErrorKind {
    Syntax,
    Runtime,
    Type,
    NameError,
    InstructionLimit,
}

/// An error with its message and the line and column it was raised at.
#[derive(Debug, Clone)]
pub struct GroveError {
    pub kind: ErrorKind,
    pub message: String,
    pub line: usize,
    pub column: usize,
}

/// The mathematical content of a [`GroveError`].
pub ghost struct SpecError {
    pub kind: ErrorKind,
    pub message: Seq<char>,
    pub line: usize,
    pub column: usize,
}

/// A value, or the error that kept it from being computed.
pub type GroveResult<T> = Result<T, GroveError>;

impl View for GroveError {
    type V = SpecError;

    open spec fn view(&self) -> SpecError {
        SpecError { kind: self.kind, message: self.message@, line: self.line, column: self.column }
    }
}

/// The error of kind `kind` with the given message and position.
pub open spec fn error_at(kind: ErrorKind, message: Seq<char>, line: usize, column: usize) -> SpecError {
    SpecError { kind, message, line, column }
}

/// The message carried by every instruction-limit error.
pub open spec fn limit_message() -> Seq<char> {
    "instruction limit exceeded"@
}

/// The name a kind is printed with.
pub open spec fn kind_name(kind: ErrorKind) -> Seq<char> {
    match kind {
        ErrorKind::Syntax => "Syntax"@,
        ErrorKind::Runtime => "Runtime"@,
        ErrorKind::Type => "Type"@,
        ErrorKind::NameError => "NameError"@,
        ErrorKind::InstructionLimit => "InstructionLimit"@,
    }
}

/// The printed form of an error: `[line L:C] Kind: message`.
pub open spec fn error_text(e: SpecError) -> Seq<char> {
    "[line "@ + decimal(e.line as nat) + ":"@ + decimal(e.column as nat) + "] "@ + kind_name(e.kind)
        + ": "@ + e.message
}

impl ErrorKind {
    /// The name this kind is printed with.
    pub fn name(&self) -> (s: &'static str)
        ensures
            s@ == kind_name(*self),
    {
        match self {
            ErrorKind::Syntax => "Syntax",
            ErrorKind::Runtime => "Runtime",
            ErrorKind::Type => "Type",
            ErrorKind::NameError => "NameError",
            ErrorKind::InstructionLimit => "InstructionLimit",
        }
    }
}

impl GroveError {
    /// A syntax error: text that is no program.
    pub fn syntax(message: &str, line: usize, column: usize) -> (e: Self)
        ensures
            e@ == error_at(ErrorKind::Syntax, message@, line, column),
    {
        Self { kind: ErrorKind::Syntax, message: message.to_owned(), line, column }
    }

    /// A runtime error: an operation that cannot be carried out.
    pub fn runtime(message: &str, line: usize, column: usize) -> (e: Self)
        ensures
            e@ == error_at(ErrorKind::Runtime, message@, line, column),
    {
        Self { kind: ErrorKind::Runtime, message: message.to_owned(), line, column }
    }

    /// A type error: an operation on a value of the wrong type.
    pub fn type_error(message: &str, line: usize, column: usize) -> (e: Self)
        ensures
            e@ == error_at(ErrorKind::Type, message@, line, column),
    {
        Self { kind: ErrorKind::Type, message: message.to_owned(), line, column }
    }

    /// A name error: a name that nothing is bound to.
    pub fn name_error(message: &str, line: usize, column: usize) -> (e: Self)
        ensures
            e@ == error_at(ErrorKind::NameError, message@, line, column),
    {
        Self { kind: ErrorKind::NameError, message: message.to_owned(), line, column }
    }

    /// The error of a run that had to count beyond the instruction limit.
    pub fn instruction_limit(line: usize, column: usize) -> (e: Self)
        ensures
            e@ == error_at(ErrorKind::InstructionLimit, limit_message(), line, column),
    {
        Self {
            kind: ErrorKind::InstructionLimit,
            message: "instruction limit exceeded".to_owned(),
            line,
            column,
        }
    }

    /// The printed form of the error: `[line L:C] Kind: message`.
    pub fn to_text(&self) -> (s: String)
        ensures
            s@ == error_text(self@),
    {
        let mut s = String::new();
        push_text(&mut s, "[line ");
        push_decimal(&mut s, self.line as u64);
        push_text(&mut s, ":");
        push_decimal(&mut s, self.column as u64);
        push_text(&mut s, "] ");
        push_text(&mut s, self.kind.name());
        push_text(&mut s, ": ");
        push_text(&mut s, self.message.as_str());
        assert(s@ =~= error_text(self@));
        s
    }
}

} // verus!
