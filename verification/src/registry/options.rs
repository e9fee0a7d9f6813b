//! The options registry: script-declared `key: value` pairs.

use vstd::prelude::*;

use crate::kvlist::{kv_get, kv_insert, map_of};

verus! {

/// Maps option keys to their raw values.
pub struct OptionsRegistry {
    /// Key-to-value entries; later entries shadow earlier ones.
    pub entries: Vec<(String, String)>,
}

impl OptionsRegistry {
    /// The map the registry denotes.
    pub open spec fn spec_map(self) -> Map<Seq<char>, String> {
        map_of(self.entries@)
    }

    /// An empty registry.
    pub fn new() -> (r: OptionsRegistry)
        ensures
            r.spec_map() == Map::<Seq<char>, String>::empty(),
    {
        OptionsRegistry { entries: Vec::new() }
    }

    /// Sets an option, replacing any earlier value.
    pub fn set_option(&mut self, key: &str, value: String)
        ensures
            final(self).spec_map() == old(self).spec_map().insert(key@, value),
    {
        kv_insert(&mut self.entries, String::from_str(key), value);
    }

    /// Reads an option.
    pub fn get_option(&self, key: &str) -> (r: Option<String>)
        ensures
            match r {
                Some(v) => self.spec_map().contains_key(key@) && v@ == self.spec_map()[key@]@,
                None => !self.spec_map().contains_key(key@),
            },
    {
        match kv_get(&self.entries, key) {
            Some(v) => Some(v.clone()),
            None => None,
        }
    }

    /// Drops every option.
    pub fn clear_options(&mut self)
        ensures
            final(self).spec_map() == Map::<Seq<char>, String>::empty(),
    {
        self.entries = Vec::new();
    }
}

/// Startup hook for this registry; options are filled from scripts, so
/// there is nothing to do.
pub fn register() {
}

} // verus!
