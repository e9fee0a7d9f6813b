//! Registration hook for the `add` effect.

use vstd::prelude::*;

use crate::registry::effects::{effects_view, EffectsRegistry};

verus! {

/// Registers this effect's statement names: exactly `add`, `give` are added, nothing else changes.
pub fn register(reg: &mut EffectsRegistry)
    ensures
        effects_view(*final(reg)) == effects_view(*old(reg)).insert("add"@, "add"@).insert("give"@, "give"@),
{
    reg.register_effect("add");
    reg.register_effect("give");
    proof {
        assert(effects_view(*reg) =~= effects_view(*old(reg)).insert("add"@, "add"@).insert("give"@, "give"@));
    }
}

} // verus!
