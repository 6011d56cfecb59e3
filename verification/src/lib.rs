//! An interpreter for a small stack-based instruction language.
//!
//! A program is a text of instructions, literals, labels and block comments.
//! [`lexer::Lexer`] scans it from left to right and applies each instruction
//! to an evaluation state as soon as it has been recognised; [`lexer::run`]
//! does so to the end and returns the stack.
//!
//! - [`stack`]: the values, the vector, and the operations on the value stack.
//! - [`grammar`]: the lexemes of the language and the scanner that finds them.
//! - [`lexer`]: the kinds of lexeme and of error, the evaluation state, and
//!   the effect of each instruction on it.
//! - [`laws`]: what holds of the operations and of the machine in general.
//! - [`source`], [`text`]: the program text, and numbers and lists as text.

pub mod grammar;
pub mod laws;
pub mod lexer;
pub mod source;
pub mod stack;
pub mod text;
