//! A lint engine for the Dice scripting language.
//!
//! [`analyze_file`] reads the whole text of a document and returns the
//! diagnostics found in it: unmatched parentheses, stray semicolons,
//! comparisons between values of different types, and `if`/`else`/`end`
//! blocks that do not nest. A document is modelled by its UTF-8 bytes, and
//! every column counts bytes from the start of its line.

pub mod analysis;
pub mod blocks;
pub mod bytes;
pub mod condition;
pub mod diagnostic;
pub mod infer;
pub mod keywords;
pub mod laws;
pub mod lines;
pub mod parens;
pub mod space;
pub mod table;
pub mod types;

pub use analysis::{analyze_file, Analyzer};
pub use blocks::{Block, BlockFrame, BlockStack, LineKind};
pub use condition::Comparison;
pub use diagnostic::{Diagnostic, Position, Range, Severity};
pub use infer::infer_type;
pub use parens::ParenStack;
pub use table::VarTable;
pub use types::VarType;
