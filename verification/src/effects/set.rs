//! Registration hook for the `set` effect.

use vstd::prelude::*;

use crate::registry::effects::{effects_view, EffectsRegistry};

verus! {

/// Registers this effect's statement names: exactly `set`, `delete`, `clear` are added, nothing else changes.
pub fn register(reg: &mut EffectsRegistry)
    ensures
        effects_view(*final(reg)) == effects_view(*old(reg)).insert("set"@, "set"@).insert("delete"@, "delete"@).insert("clear"@, "clear"@),
{
    reg.register_effect("set");
    reg.register_effect("delete");
    reg.register_effect("clear");
    proof {
        assert(effects_view(*reg) =~= effects_view(*old(reg)).insert("set"@, "set"@).insert("delete"@, "delete"@).insert("clear"@, "clear"@));
    }
}

} // verus!
