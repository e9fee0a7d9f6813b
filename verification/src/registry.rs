//! The runtime registries: options, functions, event triggers, effects and
//! expressions, each an owned value handed to its users explicitly rather
//! than ambient global state.

pub mod effects;
pub mod events;
pub mod expressions;
pub mod functions;
pub mod options;

use vstd::prelude::*;

verus! {

/// All registries the runtime needs, as one owned bundle.
pub struct Registries {
    /// The options registry.
    pub options: options::OptionsRegistry,
    /// The functions registry.
    pub functions: functions::FunctionsRegistry,
    /// The event trigger registry.
    pub events: events::TriggerRegistry,
    /// The effects registry.
    pub effects: effects::EffectsRegistry,
    /// The expressions registry.
    pub expressions: expressions::ExpressionsRegistry,
}

/// Builds every registry and registers all built-ins.
pub fn register_all() -> (r: Registries) {
    let mut effects_reg = effects::EffectsRegistry::new();
    options::register();
    effects::register_all_effects(&mut effects_reg);
    events::register();
    functions::register();
    let mut expressions_reg = expressions::ExpressionsRegistry::new();
    expressions::register_all_expressions(&mut expressions_reg);
    Registries {
        options: options::OptionsRegistry::new(),
        functions: functions::FunctionsRegistry::new(),
        events: events::TriggerRegistry::new(),
        effects: effects_reg,
        expressions: expressions_reg,
    }
}

} // verus!
