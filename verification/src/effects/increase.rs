//! Registration hook for the `increase` effect.

use vstd::prelude::*;

use crate::registry::effects::{effects_view, EffectsRegistry};

verus! {

/// Registers this effect's statement name: exactly `increase` is added, nothing else changes.
pub fn register(reg: &mut EffectsRegistry)
    ensures
        effects_view(*final(reg)) == effects_view(*old(reg)).insert("increase"@, "increase"@),
{
    reg.register_effect("increase");
    proof {
        assert(effects_view(*reg) =~= effects_view(*old(reg)).insert("increase"@, "increase"@));
    }
}

} // verus!
