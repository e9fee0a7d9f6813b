//! Registration hook for the `reset` effect.

use vstd::prelude::*;

use crate::registry::effects::{effects_view, EffectsRegistry};

verus! {

/// Registers this effect's statement name: exactly `reset` is added, nothing else changes.
pub fn register(reg: &mut EffectsRegistry)
    ensures
        effects_view(*final(reg)) == effects_view(*old(reg)).insert("reset"@, "reset"@),
{
    reg.register_effect("reset");
    proof {
        assert(effects_view(*reg) =~= effects_view(*old(reg)).insert("reset"@, "reset"@));
    }
}

} // verus!
