//! Registration hook for the `broadcast` effect.

use vstd::prelude::*;

use crate::registry::effects::{effects_view, EffectsRegistry};

verus! {

/// Registers this effect's statement name: exactly `broadcast` is added, nothing else changes.
pub fn register(reg: &mut EffectsRegistry)
    ensures
        effects_view(*final(reg)) == effects_view(*old(reg)).insert("broadcast"@, "broadcast"@),
{
    reg.register_effect("broadcast");
    proof {
        assert(effects_view(*reg) =~= effects_view(*old(reg)).insert("broadcast"@, "broadcast"@));
    }
}

} // verus!
