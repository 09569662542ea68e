//! A pattern-ordered tokenizer and a backtracking, ordered-choice grammar
//! engine that turn text into a caller-defined value.
mod compiler;
mod syntax_tree_creator;
mod tokenizer;

pub use compiler::{CompileError, Compiler};
pub use syntax_tree_creator::{
    AnalyzeError, MAX_NESTING, OptionalSymbols, StateableIterator, SyntaxTreeCreator,
    SyntaxTreeCreatorError,
};
pub use tokenizer::{DIAGNOSTIC_LEN, Tokenizer, TokenizerError, leading_match};
