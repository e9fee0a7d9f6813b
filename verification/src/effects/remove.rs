//! Registration hook for the `remove` effect.

use vstd::prelude::*;

use crate::registry::effects::{effects_view, EffectsRegistry};

verus! {

/// Registers this effect's statement names: exactly `remove`, `subtract`, `reduce`, `decrease` are added, nothing else changes.
pub fn register(reg: &mut EffectsRegistry)
    ensures
        effects_view(*final(reg)) == effects_view(*old(reg)).insert("remove"@, "remove"@).insert("subtract"@, "subtract"@).insert("reduce"@, "reduce"@).insert("decrease"@, "decrease"@),
{
    reg.register_effect("remove");
    reg.register_effect("subtract");
    reg.register_effect("reduce");
    reg.register_effect("decrease");
    proof {
        assert(effects_view(*reg) =~= effects_view(*old(reg)).insert("remove"@, "remove"@).insert("subtract"@, "subtract"@).insert("reduce"@, "reduce"@).insert("decrease"@, "decrease"@));
    }
}

} // verus!
