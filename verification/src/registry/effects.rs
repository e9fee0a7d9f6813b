//! The effects registry: the names of the effect statements the runtime
//! understands. What each effect does lives with the host; the registry
//! answers whether a name is known.

use vstd::prelude::*;

use crate::kvlist::{kv_contains, map_of};

verus! {

/// The set of registered effect names.
pub struct EffectsRegistry {
    /// The registered names, with map semantics over equal names.
    pub entries: Vec<(String, String)>,
}

/// The known-names map of a registry, over character sequences: each
/// registered name maps to itself.
pub open spec fn effects_view(r: EffectsRegistry) -> Map<Seq<char>, Seq<char>> {
    Map::new(
        |k: Seq<char>| map_of(r.entries@).contains_key(k),
        |k: Seq<char>| map_of(r.entries@)[k]@,
    )
}

impl EffectsRegistry {
    /// The known-names map: each registered name maps to itself.
    pub open spec fn spec_map(self) -> Map<Seq<char>, String> {
        map_of(self.entries@)
    }

    /// An empty registry.
    pub fn new() -> (r: EffectsRegistry)
        ensures
            effects_view(r) == Map::<Seq<char>, Seq<char>>::empty(),
    {
        let r = EffectsRegistry { entries: Vec::new() };
        proof {
            assert(effects_view(r) =~= Map::<Seq<char>, Seq<char>>::empty());
        }
        r
    }

    /// Registers an effect name: exactly that name is added, nothing else
    /// changes.
    pub fn register_effect(&mut self, name: &str)
        ensures
            effects_view(*final(self)) == effects_view(*old(self)).insert(name@, name@),
    {
        crate::kvlist::kv_insert(&mut self.entries, String::from_str(name), String::from_str(
            name,
        ));
        proof {
            assert(effects_view(*self) =~= effects_view(*old(self)).insert(name@, name@));
        }
    }

    /// Whether an effect name is registered.
    pub fn get_effect(&self, name: &str) -> (r: bool)
        ensures
            r == effects_view(*self).contains_key(name@),
    {
        kv_contains(&self.entries, name)
    }
}

/// Registers every built-in effect: exactly the built-in statement names
/// and their aliases are added, in registration order, and nothing else.
pub fn register_all_effects(reg: &mut EffectsRegistry)
    ensures
        effects_view(*final(reg)) == effects_view(*old(reg)).insert("send"@, "send"@).insert(
            "set"@,
            "set"@,
        ).insert("delete"@, "delete"@).insert("clear"@, "clear"@).insert(
            "broadcast"@,
            "broadcast"@,
        ).insert("replace"@, "replace"@).insert("add"@, "add"@).insert("give"@, "give"@).insert(
            "increase"@,
            "increase"@,
        ).insert("remove"@, "remove"@).insert("subtract"@, "subtract"@).insert(
            "reduce"@,
            "reduce"@,
        ).insert("decrease"@, "decrease"@).insert("reset"@, "reset"@),
{
    crate::effects::send::register(reg);
    crate::effects::set::register(reg);
    crate::effects::broadcast::register(reg);
    crate::effects::replace::register(reg);
    crate::effects::add::register(reg);
    crate::effects::increase::register(reg);
    crate::effects::remove::register(reg);
    crate::effects::reset::register(reg);
}

} // verus!
