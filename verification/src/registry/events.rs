//! The trigger registry: parsed triggers grouped under canonical event
//! keys, replaced wholesale on reload. Lookup normalizes the event key:
//! trimmed and ASCII lower-cased.

use vstd::prelude::*;

use crate::ast::{clone_trigger, trigger_like, Trigger};
use crate::script::Script;
use crate::strutil::{
    chars_to_string, lower_chars, spec_lower, spec_trim, str_eq, str_to_chars, trim_chars,
};

verus! {

/// Stores `(event key, trigger)` pairs in registration order.
pub struct TriggerRegistry {
    /// The registered triggers, each under its event key.
    pub entries: Vec<(String, Trigger)>,
}

/// The normalized form of an event key: trimmed and ASCII lower-cased.
pub open spec fn spec_norm_event(s: Seq<char>) -> Seq<char> {
    spec_lower(spec_trim(s))
}

/// The registry key a trigger is stored under: its parsed canonical event
/// name when one was recognized, else its raw header, normalized either
/// way.
pub open spec fn spec_trigger_key(t: Trigger) -> Seq<char> {
    match t.header.event {
        Some(pe) => spec_norm_event(pe.event_name@),
        None => spec_norm_event(t.header.raw@),
    }
}

/// Every trigger of every script, in script order then trigger order.
pub open spec fn spec_all_triggers(scripts: Seq<Script>) -> Seq<Trigger>
    decreases scripts.len(),
{
    if scripts.len() == 0 {
        Seq::empty()
    } else {
        spec_all_triggers(scripts.drop_last()) + scripts.last().triggers@
    }
}

/// The triggers an entry list holds under one key, in order.
pub open spec fn spec_triggers_with_key(entries: Seq<(String, Trigger)>, k: Seq<char>) -> Seq<
    Trigger,
>
    decreases entries.len(),
{
    if entries.len() == 0 {
        Seq::empty()
    } else {
        let head = spec_triggers_with_key(entries.drop_last(), k);
        if entries.last().0@ == k {
            head.push(entries.last().1)
        } else {
            head
        }
    }
}

/// Normalizes an event key.
fn norm_event(event: &str) -> (r: String)
    ensures
        r@ == spec_norm_event(event@),
{
    chars_to_string(&lower_chars(&trim_chars(&str_to_chars(event))))
}

/// The registry key of a trigger.
fn trigger_event_key(trigger: &Trigger) -> (r: String)
    ensures
        r@ == spec_trigger_key(*trigger),
{
    match &trigger.header.event {
        Some(ev) => norm_event(ev.event_name.as_str()),
        None => norm_event(trigger.header.raw.as_str()),
    }
}

impl TriggerRegistry {
    /// An empty registry.
    pub fn new() -> (r: TriggerRegistry)
        ensures
            r.entries@.len() == 0,
    {
        TriggerRegistry { entries: Vec::new() }
    }

    /// Adds triggers onto the registry, purely additively: earlier entries
    /// stay untouched, and each input trigger is appended in input order
    /// under its event key.
    pub fn register_triggers(&mut self, triggers: Vec<Trigger>)
        ensures
            final(self).entries@.len() == old(self).entries@.len() + triggers@.len(),
            forall|i: int|
                0 <= i < old(self).entries@.len() ==> #[trigger] final(self).entries@[i] == old(
                    self,
                ).entries@[i],
            forall|i: int|
                0 <= i < triggers@.len() ==> (#[trigger] final(self).entries@[old(
                    self,
                ).entries@.len() + i]).1 == triggers@[i] && (final(self).entries@[old(
                    self,
                ).entries@.len() + i]).0@ == spec_trigger_key(triggers@[i]),
    {
        let ghost base = self.entries@.len() as int;
        let ghost all = triggers@;
        let mut rest = triggers;
        let n0 = rest.len();
        let mut j: usize = 0;
        while rest.len() > 0
            invariant
                j <= n0,
                n0 == all.len(),
                j + rest@.len() == all.len(),
                rest@ == all.skip(j as int),
                self.entries@.len() == base + j,
                base == old(self).entries@.len(),
                forall|i: int|
                    0 <= i < base ==> #[trigger] self.entries@[i] == old(self).entries@[i],
                forall|i: int|
                    0 <= i < j ==> (#[trigger] self.entries@[base + i]).1 == all[i]
                        && (self.entries@[base + i]).0@ == spec_trigger_key(all[i]),
            decreases rest@.len(),
        {
            let trigger = rest.remove(0);
            proof {
                assert(all.skip(j as int)[0] == all[j as int]);
                assert(all.skip(j as int).skip(1) =~= all.skip(j + 1));
            }
            let key = trigger_event_key(&trigger);
            self.entries.push((key, trigger));
            j = j + 1;
        }
    }

    /// Drops every trigger.
    pub fn clear_triggers(&mut self)
        ensures
            final(self).entries@.len() == 0,
    {
        self.entries = Vec::new();
    }

    /// Replaces the registry's contents with exactly the input triggers, in
    /// input order, each under its event key; all prior contents are
    /// discarded.
    pub fn replace_all_triggers(&mut self, triggers: Vec<Trigger>)
        ensures
            final(self).entries@.len() == triggers@.len(),
            forall|i: int|
                0 <= i < triggers@.len() ==> (#[trigger] final(self).entries@[i]).1 == triggers@[i]
                    && (final(self).entries@[i]).0@ == spec_trigger_key(triggers@[i]),
    {
        self.clear_triggers();
        self.register_triggers(triggers);
        proof {
            assert forall|i: int|
                0 <= i < triggers@.len() implies ((#[trigger] self.entries@[i]).1 == triggers@[i]
                && (self.entries@[i]).0@ == spec_trigger_key(triggers@[i])) by {
                assert((self.entries@[0 + i]).1 == triggers@[i] && (self.entries@[0 + i]).0@
                    == spec_trigger_key(triggers@[i]));
            }
        }
    }

    /// Replaces the registry's contents with copies of every trigger of the
    /// given scripts, in script order then trigger order, each under its
    /// event key; returns how many triggers that is. All prior contents are
    /// discarded.
    pub fn replace_all_triggers_from_scripts(&mut self, scripts: &Vec<Script>) -> (r: usize)
        ensures
            r == spec_all_triggers(scripts@).len(),
            final(self).entries@.len() == r,
            forall|i: int|
                0 <= i < spec_all_triggers(scripts@).len() ==> trigger_like(
                    (#[trigger] final(self).entries@[i]).1,
                    spec_all_triggers(scripts@)[i],
                ) && (final(self).entries@[i]).0@ == spec_trigger_key(
                    spec_all_triggers(scripts@)[i],
                ),
    {
        self.clear_triggers();
        let ghost flat = spec_all_triggers(scripts@);
        let mut total: usize = 0;
        let mut s: usize = 0;
        proof {
            assert(scripts@.take(0) =~= Seq::<Script>::empty());
        }
        while s < scripts.len()
            invariant
                s <= scripts@.len(),
                flat == spec_all_triggers(scripts@),
                self.entries@.len() == total,
                total == spec_all_triggers(scripts@.take(s as int)).len(),
                spec_all_triggers(scripts@.take(s as int)) == flat.take(total as int),
                forall|i: int|
                    0 <= i < total ==> trigger_like(
                        (#[trigger] self.entries@[i]).1,
                        flat[i],
                    ) && (self.entries@[i]).0@ == spec_trigger_key(flat[i]),
            decreases scripts@.len() - s,
        {
            let script = &scripts[s];
            let ghost outer_base = total as int;
            let mut t: usize = 0;
            while t < script.triggers.len()
                invariant
                    s < scripts@.len(),
                    script == &scripts[s as int],
                    t <= script.triggers@.len(),
                    flat == spec_all_triggers(scripts@),
                    self.entries@.len() == total,
                    total == outer_base + t,
                    outer_base == spec_all_triggers(scripts@.take(s as int)).len(),
                    spec_all_triggers(scripts@.take(s as int)) == flat.take(outer_base),
                    flat.take(total as int) =~= flat.take(outer_base)
                        + script.triggers@.take(t as int),
                    forall|i: int|
                        0 <= i < total ==> trigger_like(
                            (#[trigger] self.entries@[i]).1,
                            flat[i],
                        ) && (self.entries@[i]).0@ == spec_trigger_key(flat[i]),
                decreases script.triggers@.len() - t,
            {
                let trigger = clone_trigger(&script.triggers[t]);
                let key = trigger_event_key(&trigger);
                proof {
                    lemma_all_triggers_prefix(scripts@, s as int, t as int);
                    assert(flat.take(total + 1) =~= flat.take(outer_base)
                        + script.triggers@.take(t + 1));
                    assert(flat.len() >= total + 1);
                    assert(flat.take(total + 1)[total as int] == flat[total as int]);
                    assert((flat.take(outer_base) + script.triggers@.take(t + 1))[total as int]
                        == script.triggers@.take(t + 1)[t as int]);
                    assert(script.triggers@.take(t + 1)[t as int] == script.triggers@[t as int]);
                    assert(flat[total as int] == script.triggers@[t as int]);
                    assert(spec_trigger_key(trigger) == spec_trigger_key(
                        script.triggers@[t as int],
                    ));
                }
                self.entries.push((key, trigger));
                total = self.entries.len();
                t = t + 1;
            }
            s = s + 1;
            proof {
                assert(scripts@.take(s as int).drop_last() =~= scripts@.take(s - 1));
                assert(scripts@.take(s as int).last() == scripts@[s - 1]);
                assert(script.triggers@.take(script.triggers@.len() as int)
                    =~= script.triggers@);
            }
        }
        proof {
            assert(scripts@.take(scripts@.len() as int) =~= scripts@);
            assert(flat.take(total as int) =~= flat);
        }
        total
    }

    /// The triggers registered under an event key, in registration order,
    /// as copies; the key is looked up trimmed and without regard to ASCII
    /// case, and an unknown key yields nothing.
    pub fn get_triggers(&self, event: &str) -> (r: Vec<Trigger>)
        ensures
            r@.len() == spec_triggers_with_key(self.entries@, spec_norm_event(event@)).len(),
            forall|i: int|
                0 <= i < r@.len() ==> trigger_like(
                    #[trigger] r@[i],
                    spec_triggers_with_key(self.entries@, spec_norm_event(event@))[i],
                ),
    {
        let key = norm_event(event);
        let ghost want = spec_triggers_with_key(self.entries@, spec_norm_event(event@));
        let mut out: Vec<Trigger> = Vec::new();
        let mut i: usize = 0;
        proof {
            assert(self.entries@.take(0) =~= Seq::<(String, Trigger)>::empty());
        }
        while i < self.entries.len()
            invariant
                i <= self.entries@.len(),
                key@ == spec_norm_event(event@),
                out@.len() == spec_triggers_with_key(
                    self.entries@.take(i as int),
                    spec_norm_event(event@),
                ).len(),
                forall|x: int|
                    0 <= x < out@.len() ==> trigger_like(
                        #[trigger] out@[x],
                        spec_triggers_with_key(
                            self.entries@.take(i as int),
                            spec_norm_event(event@),
                        )[x],
                    ),
            decreases self.entries@.len() - i,
        {
            proof {
                assert(self.entries@.take(i + 1).drop_last() =~= self.entries@.take(i as int));
                assert(self.entries@.take(i + 1).last() == self.entries@[i as int]);
            }
            if str_eq(self.entries[i].0.as_str(), key.as_str()) {
                out.push(clone_trigger(&self.entries[i].1));
            }
            i = i + 1;
        }
        proof {
            assert(self.entries@.take(self.entries@.len() as int) =~= self.entries@);
        }
        out
    }
}

/// A flattened prefix of the scripts' triggers splits at script boundaries.
proof fn lemma_all_triggers_prefix(scripts: Seq<Script>, s: int, t: int)
    requires
        0 <= s < scripts.len(),
        0 <= t < scripts[s].triggers@.len(),
    ensures
        spec_all_triggers(scripts).len() >= spec_all_triggers(scripts.take(s)).len() + t + 1,
        spec_all_triggers(scripts).take(spec_all_triggers(scripts.take(s)).len() + t + 1)
            =~= spec_all_triggers(scripts.take(s)) + scripts[s].triggers@.take(t + 1),
    decreases scripts.len() - s,
{
    lemma_all_triggers_split(scripts, s);
    let head = spec_all_triggers(scripts.take(s));
    assert(spec_all_triggers(scripts) == head + spec_all_triggers_from(scripts, s));
    assert(spec_all_triggers_from(scripts, s) == scripts[s].triggers@ + spec_all_triggers_from(
        scripts,
        s + 1,
    ));
}

/// The triggers of the scripts from index `s` on.
pub open spec fn spec_all_triggers_from(scripts: Seq<Script>, s: int) -> Seq<Trigger>
    decreases scripts.len() - s
        when 0 <= s <= scripts.len()
{
    if s == scripts.len() {
        Seq::empty()
    } else {
        scripts[s].triggers@ + spec_all_triggers_from(scripts, s + 1)
    }
}

/// The flattened triggers split at any script boundary.
proof fn lemma_all_triggers_split(scripts: Seq<Script>, s: int)
    requires
        0 <= s <= scripts.len(),
    ensures
        spec_all_triggers(scripts) == spec_all_triggers(scripts.take(s))
            + spec_all_triggers_from(scripts, s),
    decreases scripts.len() - s,
{
    if s == scripts.len() {
        assert(scripts.take(s) =~= scripts);
        assert(spec_all_triggers(scripts) + Seq::<Trigger>::empty() =~= spec_all_triggers(
            scripts,
        ));
    } else {
        lemma_all_triggers_split(scripts, s + 1);
        assert(scripts.take(s + 1).drop_last() =~= scripts.take(s));
        assert(scripts.take(s + 1).last() == scripts[s]);
        assert(spec_all_triggers(scripts.take(s + 1)) == spec_all_triggers(scripts.take(s))
            + scripts[s].triggers@);
        assert(spec_all_triggers(scripts.take(s)) + (scripts[s].triggers@
            + spec_all_triggers_from(scripts, s + 1)) =~= (spec_all_triggers(scripts.take(s))
            + scripts[s].triggers@) + spec_all_triggers_from(scripts, s + 1));
    }
}

/// Startup hook for this registry; triggers are loaded from scripts, so
/// there is nothing to do.
pub fn register() {
}

} // verus!
