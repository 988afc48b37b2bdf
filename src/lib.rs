//! Lexer and diagnostics core of a language server for ungrammar-style
//! grammar files: a tokenizer with exact source locations, its error type, the
//! conversion of errors into editor diagnostics, and the per-document
//! diagnostics lifecycle driven by save and change notifications.
pub mod config;
pub mod diagnostic;
pub mod error;
pub mod lexer;
pub mod lexer_laws;
pub mod location;
pub mod server;
mod text;

pub use diagnostic::{Diagnostic, Position, Severity, TextRange};
pub use error::Error;
pub use lexer::{tokenize, Token, TokenKind};
pub use location::{Location, Range};
pub use server::{Action, DocumentState, Notification, Request, Server, SERVER_NAME};
