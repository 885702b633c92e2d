//! A compiler and virtual machine for a small dialogue-scripting language.
//!
//! A script is read in four stages. The lexer turns text into lines of
//! tokens, the grammar builds and validates a tree of [`ast::AstNode`], the
//! compiler lowers that tree into a flat [`exec::DirectScript`], and a
//! [`exec::DirectExecution`] runs the script one observable effect at a time.
//!
//! ```text
//! mood: fine -> "Fine." tired -> "Tired."
//!
//! greeting:
//!   guide -> "Welcome back!"
//!            "How are you?"
//!   choice answer mood
//!   if (answer == "tired"):
//!     trigger rest
//!   else:
//!     trigger walk
//!   end
//! ```
//!
//! Each stage is specified by a function of its input: [`lexer::lex`],
//! [`syntax::tree`], [`context::check`], [`lowering::compile`] and
//! [`interpreter::run`]. The modules [`validity`], [`pipeline`] and
//! [`progress`] hold what is proved of these functions.

pub mod ast;
pub mod bytecode;
pub mod compiler;
pub mod context;
pub mod exec;
pub mod grammar;
pub mod interpreter;
pub mod lexer;
pub mod lowering;
pub mod pipeline;
pub mod progress;
pub mod store;
pub mod symbols;
pub mod syntax;
pub mod tile;
pub mod validity;
