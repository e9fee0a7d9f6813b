//! Command resolution engine for a text-command server: a quoting/escaping
//! tokenizer, an arena-based command tree with precomputed root-to-leaf paths,
//! a permission-gated alias-aware registry, and a backtracking dispatcher,
//! together with the script-side tooling that feeds it (a line parser for
//! `.sk` scripts, event and effect registries, and a script manager).

pub mod ast;
pub mod banlist;
pub mod commands;
pub mod consumers;
pub mod context;
pub mod diagnostics;
pub mod dispatcher;
pub mod effects;
pub mod event_parser;
pub mod kvlist;
pub mod line_parser;
pub mod loader;
pub mod manager;
pub mod net;
pub mod registry;
pub mod script;
pub mod strutil;
pub mod tokenizer;
pub mod tree;
pub mod vars;
