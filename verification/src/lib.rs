//! Core data structures of the IFA compiler front end (spans, positions,
//! identifiers, an arena, source text with line tables, diagnostics, a
//! lexer and a syntax tree), together with the plain-valued rules of the
//! football-analysis tools built around it.
pub mod arena;
pub mod diagnostic;
pub mod fixtures;
pub mod ids;
pub mod league;
pub mod lexer;
pub mod position;
pub mod report;
pub mod result;
pub mod source;
pub mod span;
pub mod syntax;
pub mod text;

pub use arena::Arena;
pub use diagnostic::{Diagnostic, DiagnosticCode, Severity};
pub use ids::NodeId;
pub use position::Position;
pub use result::{CompilerResult, ResultMessage, ResultStatus};
pub use source::SourceText;
pub use span::Span;
