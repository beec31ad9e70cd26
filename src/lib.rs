//! Turns a declared command-line schema into a prompt-driven session.
//!
//! The library holds the decisions of such a session: which prompt comes
//! next, and how each answer becomes a command-line token. The caller runs
//! the prompts and hands the answers back, then reparses the collected tokens
//! with the schema's own parser.
use vstd::prelude::*;

pub mod entries;
pub mod laws;
pub mod schema;
pub mod session;
pub mod text;
pub mod tokens;
