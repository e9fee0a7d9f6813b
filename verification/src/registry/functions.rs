//! The functions registry: script-defined functions by lower-cased name.

use vstd::prelude::*;

use crate::ast::FunctionDef;
use crate::kvlist::{kv_get, kv_insert, map_of};
use crate::strutil::{chars_to_string, lower_chars, spec_lower, str_to_chars};

verus! {

/// Maps lower-cased function names to their definitions.
pub struct FunctionsRegistry {
    /// Name-to-definition entries; later entries shadow earlier ones.
    pub entries: Vec<(String, FunctionDef)>,
}

impl FunctionsRegistry {
    /// The map the registry denotes.
    pub open spec fn spec_map(self) -> Map<Seq<char>, FunctionDef> {
        map_of(self.entries@)
    }

    /// An empty registry.
    pub fn new() -> (r: FunctionsRegistry)
        ensures
            r.spec_map() == Map::<Seq<char>, FunctionDef>::empty(),
    {
        FunctionsRegistry { entries: Vec::new() }
    }

    /// Registers a function under its lower-cased name, replacing any
    /// earlier definition of that name.
    pub fn register_function(&mut self, func: FunctionDef)
        ensures
            final(self).spec_map() == old(self).spec_map().insert(spec_lower(func.name@), func),
    {
        let key = chars_to_string(&lower_chars(&str_to_chars(func.name.as_str())));
        kv_insert(&mut self.entries, key, func);
    }

    /// Looks a function up by name, without regard to ASCII case.
    pub fn get_function(&self, name: &str) -> (r: Option<&FunctionDef>)
        ensures
            match r {
                Some(f) => self.spec_map().contains_key(spec_lower(name@)) && *f
                    == self.spec_map()[spec_lower(name@)],
                None => !self.spec_map().contains_key(spec_lower(name@)),
            },
    {
        let key = chars_to_string(&lower_chars(&str_to_chars(name)));
        kv_get(&self.entries, key.as_str())
    }

    /// Drops every function.
    pub fn clear_functions(&mut self)
        ensures
            final(self).spec_map() == Map::<Seq<char>, FunctionDef>::empty(),
    {
        self.entries = Vec::new();
    }
}

/// Startup hook for this registry; functions are filled from scripts, so
/// there is nothing to do.
pub fn register() {
}

} // verus!
