pub mod assets;
pub mod completion;
pub mod config;
pub mod diagnostics;
pub mod display;
pub mod document_span;
pub mod edits;
pub mod element;
pub mod error;
pub mod hierarchy;
pub mod language_server;
pub mod links;
pub mod locations;
pub mod lsp;
pub mod navigation;
pub mod normalize;
pub mod outlining;
pub mod patterns;
pub mod preferences;
pub mod refactor;
pub mod requests;
pub mod script_names;
pub mod semantic_tokens;
pub mod server;
pub mod signature;
pub mod span;
pub mod specifier;
pub mod specifier_map;
pub mod state;
pub mod strings;
pub mod sync;
pub mod text;
pub mod views;
