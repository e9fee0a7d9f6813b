//! The banned-player list: entries by player identity, with optional
//! expiry. Time is a Unix timestamp handed in by the caller; persistence is
//! the host's concern.

use vstd::prelude::*;

use crate::strutil::{lower_chars, spec_lower, str_to_chars, chars_eq};

verus! {

/// One ban entry.
#[derive(Clone, Debug)]
pub struct BannedPlayerEntry {
    /// The banned player's name.
    pub name: String,
    /// The banned player's UUID, as its 128-bit value.
    pub uuid: u128,
    /// Who issued the ban.
    pub source: String,
    /// When the ban ends, as Unix seconds; a permanent ban has none.
    pub expires: Option<i64>,
    /// Why the player was banned.
    pub reason: String,
}

/// Whether an entry is still in force at the given time.
pub open spec fn spec_entry_active(e: BannedPlayerEntry, now: i64) -> bool {
    match e.expires {
        Some(t) => t >= now,
        None => true,
    }
}

/// Whether an entry names the given player, by UUID or by name without
/// regard to ASCII case.
pub open spec fn spec_entry_matches(e: BannedPlayerEntry, uuid: u128, name: Seq<char>) -> bool {
    e.uuid == uuid || spec_lower(e.name@) == spec_lower(name)
}

/// The banned players.
pub struct BannedPlayerList {
    /// The entries, in insertion order.
    pub banned_players: Vec<BannedPlayerEntry>,
}

impl BannedPlayerList {
    /// An empty list.
    pub fn new() -> (r: BannedPlayerList)
        ensures
            r.banned_players@.len() == 0,
    {
        BannedPlayerList { banned_players: Vec::new() }
    }

    /// Drops every entry whose ban has expired at `now`; entries in force
    /// stay, in order. Returns whether anything was dropped, so the caller
    /// knows to persist the list.
    pub fn remove_invalid_entries(&mut self, now: i64) -> (changed: bool)
        ensures
            forall|i: int|
                0 <= i < final(self).banned_players@.len() ==> spec_entry_active(
                    #[trigger] final(self).banned_players@[i],
                    now,
                ),
            changed == (final(self).banned_players@.len() != old(self).banned_players@.len()),
            final(self).banned_players@.len() <= old(self).banned_players@.len(),
    {
        let original_len = self.banned_players.len();
        let mut kept: Vec<BannedPlayerEntry> = Vec::new();
        let mut src: Vec<BannedPlayerEntry> = Vec::new();
        core::mem::swap(&mut src, &mut self.banned_players);
        let n = src.len();
        let mut j: usize = 0;
        while j < n
            invariant
                j <= n,
                src@.len() == n - j,
                kept@.len() <= j,
                forall|i: int|
                    0 <= i < kept@.len() ==> spec_entry_active(#[trigger] kept@[i], now),
            decreases n - j,
        {
            let entry = src.remove(0);
            let keep = match entry.expires {
                Some(t) => t >= now,
                None => true,
            };
            if keep {
                kept.push(entry);
            }
            j = j + 1;
        }
        let changed = kept.len() != original_len;
        self.banned_players = kept;
        changed
    }

    /// Looks the player up after dropping expired entries: the first entry
    /// in force that names the player, by UUID or by name without regard to
    /// ASCII case.
    pub fn get_entry(&mut self, name: &str, uuid: u128, now: i64) -> (r: Option<
        &BannedPlayerEntry,
    >)
        ensures
            match r {
                Some(e) => spec_entry_matches(*e, uuid, name@) && spec_entry_active(*e, now),
                None => forall|i: int|
                    0 <= i < final(self).banned_players@.len() ==> !spec_entry_matches(
                        #[trigger] final(self).banned_players@[i],
                        uuid,
                        name@,
                    ),
            },
    {
        let _changed = self.remove_invalid_entries(now);
        let name_lc = lower_chars(&str_to_chars(name));
        let mut i: usize = 0;
        while i < self.banned_players.len()
            invariant
                i <= self.banned_players@.len(),
                name_lc@ == spec_lower(name@),
                forall|x: int|
                    0 <= x < i ==> !spec_entry_matches(
                        #[trigger] self.banned_players@[x],
                        uuid,
                        name@,
                    ),
                forall|x: int|
                    0 <= x < self.banned_players@.len() ==> spec_entry_active(
                        #[trigger] self.banned_players@[x],
                        now,
                    ),
            decreases self.banned_players@.len() - i,
        {
            let e = &self.banned_players[i];
            let entry_lc = lower_chars(&str_to_chars(e.name.as_str()));
            if e.uuid == uuid || chars_eq(&entry_lc, &name_lc) {
                return Some(&self.banned_players[i]);
            }
            i = i + 1;
        }
        None
    }
}

} // verus!
