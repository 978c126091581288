//! Extracts the compiler-version constraints that a Solidity source file
//! declares, by scanning its tokens once without building a syntax tree.

pub mod analysis;
pub mod laws;
pub mod lexeme;
pub mod machine;
pub mod tokenizer;

pub use analysis::{analyze, can_analyze, scan, AnalysisResult};
pub use lexeme::{LexError, Lexeme};
pub use machine::ScanState;
