//! Ranking and dispatch logic of a code-completion backend: the Unicode-aware
//! fuzzy matcher, the identifier grammars, the trigger tables, the request
//! model and the decisions of the completers.

pub mod unicode;
pub mod small;
pub mod character;
pub mod candidate;
pub mod query;
pub mod matching;
pub mod rank;
pub mod sorting;
pub mod filter;
pub mod pattern;
pub mod text;
pub mod identifier;
pub mod blanker;
pub mod blanking_laws;
pub mod ycmd_types;
pub mod request;
pub mod trigger;
pub mod filename;
pub mod server;
pub mod completer;
pub mod ultisnips;
pub mod routes;
pub mod utils;
pub mod lsp;
