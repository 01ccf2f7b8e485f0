//! Syntax kinds, tokens, the lexer that produces them, and the syntax tree.
pub mod kind;
pub mod lexer;
pub mod node;
pub mod token;
pub mod tree;

pub use kind::SyntaxKind;
pub use lexer::Lexer;
pub use node::SyntaxNode;
pub use token::SyntaxToken;
pub use tree::SyntaxTree;
