//! Registration hook for the `send` effect.

use vstd::prelude::*;

use crate::registry::effects::{effects_view, EffectsRegistry};

verus! {

/// Registers this effect's statement name: exactly `send` is added, nothing else changes.
pub fn register(reg: &mut EffectsRegistry)
    ensures
        effects_view(*final(reg)) == effects_view(*old(reg)).insert("send"@, "send"@),
{
    reg.register_effect("send");
    proof {
        assert(effects_view(*reg) =~= effects_view(*old(reg)).insert("send"@, "send"@));
    }
}

} // verus!
