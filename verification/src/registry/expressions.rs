//! The expressions registry: the names of the expression factories the
//! runtime tries when parsing an expression. Evaluation lives with the
//! host.

use vstd::prelude::*;

use crate::kvlist::{kv_contains, map_of};

verus! {

/// The set of registered expression factory names.
pub struct ExpressionsRegistry {
    /// The registered names, with map semantics over equal names.
    pub entries: Vec<(String, String)>,
}

impl ExpressionsRegistry {
    /// The known-names map: each registered name maps to itself.
    pub open spec fn spec_map(self) -> Map<Seq<char>, String> {
        map_of(self.entries@)
    }

    /// An empty registry.
    pub fn new() -> (r: ExpressionsRegistry)
        ensures
            r.spec_map() == Map::<Seq<char>, String>::empty(),
    {
        ExpressionsRegistry { entries: Vec::new() }
    }

    /// Registers an expression factory name.
    pub fn register_expression(&mut self, name: &str)
        ensures
            final(self).spec_map().contains_key(name@),
    {
        crate::kvlist::kv_insert(&mut self.entries, String::from_str(name), String::from_str(
            name,
        ));
    }

    /// Whether a factory name is registered.
    pub fn has_expression(&self, name: &str) -> (r: bool)
        ensures
            r == self.spec_map().contains_key(name@),
    {
        kv_contains(&self.entries, name)
    }
}

/// Registers the built-in expressions.
pub fn register_all_expressions(reg: &mut ExpressionsRegistry) {
    register_literal_string(reg);
    register_literal_number(reg);
}

/// Registers the quoted-string literal expression.
fn register_literal_string(reg: &mut ExpressionsRegistry) {
    reg.register_expression("literal_string");
}

/// Registers the numeric literal expression.
fn register_literal_number(reg: &mut ExpressionsRegistry) {
    reg.register_expression("literal_number");
}

} // verus!
