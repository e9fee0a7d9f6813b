//! Registration hook for the `replace` effect.

use vstd::prelude::*;

use crate::registry::effects::{effects_view, EffectsRegistry};

verus! {

/// Registers this effect's statement name: exactly `replace` is added, nothing else changes.
pub fn register(reg: &mut EffectsRegistry)
    ensures
        effects_view(*final(reg)) == effects_view(*old(reg)).insert("replace"@, "replace"@),
{
    reg.register_effect("replace");
    proof {
        assert(effects_view(*reg) =~= effects_view(*old(reg)).insert("replace"@, "replace"@));
    }
}

} // verus!
