//! Assembly documentation server core.
//!
//! The library answers "what does this assembly mnemonic mean?" queries:
//! an embedded instruction description is parsed into [`instr::Instruction`]
//! records, filtered by the assembler dialects a user has enabled, and
//! indexed by architecture and lowercase mnemonic.  A hover query extracts
//! the token under a cursor from a document snapshot and renders Markdown
//! documentation for every enabled architecture that knows the token.  The
//! byte-level transport of protocol messages is left to the surrounding
//! program; the dispatch logic itself is a pure function over decoded
//! messages.

pub mod dispatch;
pub mod extract;
pub mod filter;
pub mod hover;
pub mod index;
pub mod instr;
pub mod loader;
pub mod text;
