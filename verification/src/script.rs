//! A loaded script: its parsed contents together with where it came from.

use vstd::prelude::*;

use crate::ast;

verus! {

/// Where a script came from.
#[derive(Clone, Debug)]
pub enum ScriptSource {
    /// Loaded from a file on disk.
    File {
        /// The file's path.
        path: String,
    },
    /// Built from an in-memory string.
    Inline {
        /// A name for the source.
        name: String,
    },
}

/// A loaded script file and its parsed contents.
#[derive(Debug)]
pub struct Script {
    /// Where the script came from.
    pub source: ScriptSource,
    /// Options declared in the script.
    pub options: Vec<ast::OptionEntry>,
    /// Variable initializers declared in the script.
    pub variables: Vec<ast::VarInit>,
    /// Function definitions.
    pub functions: Vec<ast::FunctionDef>,
    /// Command definitions.
    pub commands: Vec<ast::CommandDef>,
    /// Parsed event triggers.
    pub triggers: Vec<ast::Trigger>,
}

impl Script {
    /// An empty script from the given source.
    pub fn new(source: ScriptSource) -> (r: Script)
        ensures
            r.source == source,
            r.options@.len() == 0,
            r.variables@.len() == 0,
            r.functions@.len() == 0,
            r.commands@.len() == 0,
            r.triggers@.len() == 0,
    {
        Script {
            source,
            options: Vec::new(),
            variables: Vec::new(),
            functions: Vec::new(),
            commands: Vec::new(),
            triggers: Vec::new(),
        }
    }

    /// Wraps a parsed syntax tree with its source.
    pub fn from_ast(source: ScriptSource, parsed: ast::Script) -> (r: Script)
        ensures
            r.source == source,
            r.options == parsed.options,
            r.variables == parsed.variables,
            r.functions == parsed.functions,
            r.commands == parsed.commands,
            r.triggers == parsed.triggers,
    {
        let ast::Script { options, variables, functions, commands, triggers } = parsed;
        Script { source, options, variables, functions, commands, triggers }
    }
}

} // verus!
