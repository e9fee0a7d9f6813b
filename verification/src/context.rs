//! Execution-context data that is plain values: where queued chat output
//! should go. Players are referred to by name; the host resolves them.

use vstd::prelude::*;

verus! {

/// Where a queued message is sent when the outbox is flushed.
#[derive(Clone, Debug)]
pub enum SendTarget {
    /// The current event's player, resolved at flush time.
    Player,
    /// A specific player, by name, resolved at queue time.
    SpecificPlayer(String),
    /// Every online player.
    AllPlayers,
}

} // verus!
