//! The built-in moderation commands' grammars and pure helpers. The
//! executors themselves act on the server and live with the host, wired up
//! under the executor names the trees declare.

pub mod ban;
pub mod banip;
pub mod script_commands;
pub mod skript;
pub mod tempban;
