//! A tree-walking interpreter front end for a small dynamically typed
//! scripting language: arithmetic, strings, booleans, variables, control
//! flow, and first-class functions with closures.
//!
//! Source text goes through three parts:
//!
//! - the [`scanner`] makes tokens of the text;
//! - the [`parser`] makes a syntax tree ([`ast`]) of the tokens, by the rules
//!   of the [`grammar`];
//! - the [`interpreter`] runs the tree, one step of the [`machine`] at a
//!   time, with its variables in the scopes of an [`environment`].
//!
//! Numbers are doubles, which the library holds by their bits and compares
//! itself ([`number`]). What else there is to do with a double, and the
//! output, is the work of the host that runs the interpreter:
//!
//! ```text
//! interpreter.interpret(&statements);
//! let mut event = Event::Resume;
//! loop {
//!     event = match interpreter.step(event) {
//!         Action::Finished => break,
//!         Action::Failed(error) => /* report the error */ break,
//!         Action::Print(text) => /* write the line */ Event::Resume,
//!         Action::Arithmetic { operation, left, right } => Event::Number(/* the result */),
//!         ...
//!     };
//! }
//! ```
pub mod ast;
pub mod environment;
pub mod error;
pub mod grammar;
pub mod interpreter;
pub mod lexer;
pub mod machine;
pub mod number;
pub mod object;
pub mod parser;
pub mod scanner;
pub mod tokens;
