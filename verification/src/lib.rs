//! Grove: a small embeddable scripting language.
//!
//! Source text passes through the [`lexer`], the [`parser`] and the
//! tree-walking [`interpreter`]. Each of them is verified against a
//! mathematical definition of what it computes: [`lexer::lex`] for the
//! tokens, [`grammar`] for the syntax tree, [`semantics`] for the result and
//! the state that a program leads to. [`theorems`], [`scoping`] and
//! [`progress`] hold what is proved of these definitions themselves: the
//! instruction bound, the order of evaluation, the isolation of scopes, and
//! that reading always moves on.
//!
//! Numbers are IEEE-754 doubles, held by their bit pattern ([`number`]). The
//! library decides what the bits decide; arithmetic, and the reading and
//! printing of numbers that are no integers, are closures of the embedder,
//! like the host functions. A contract states what a function computes for
//! closures that give one answer for each input, and for every program that
//! asks only those that do ([`quiet`]); and it states what holds whatever
//! they answer.
pub mod text;
pub mod error;
pub mod number;
pub mod types;
pub mod lexer;
pub mod ast;
pub mod grammar;
pub mod progress;
pub mod parser;
pub mod environment;
pub mod semantics;
pub mod quiet;
pub mod theorems;
pub mod scoping;
pub mod interpreter;
pub mod vm;

pub use vm::{GroveStringVal, GroveValue, GroveValueTag, GroveVec3Val, GroveVm};
