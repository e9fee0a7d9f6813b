//! The event registry: maps normalized script header text to canonical
//! event keys, with a table of built-in aliases, and parses trigger headers
//! into recognized events, falling back to step-on and move/rotate pattern
//! forms.

use vstd::prelude::*;

use crate::ast::{ParsedEvent, Script};
use crate::kvlist::{kv_get, kv_insert, map_of};
use crate::strutil::{
    chars_eq, chars_sub, chars_to_string, lower_chars, spec_lower, spec_split_ws, spec_trim,
    split_ws, starts_with_chars, str_to_chars, trim_chars,
};
use crate::tree::{join_sep_chars, spec_join_sep};

verus! {

/// Maps normalized header text to the canonical event key it names.
pub struct EventRegistry {
    /// Normalized header text, to canonical event key.
    pub map: Vec<(String, String)>,
}

/// The registry's map, over character sequences.
pub open spec fn reg_map(r: EventRegistry) -> Map<Seq<char>, Seq<char>> {
    Map::new(
        |k: Seq<char>| map_of(r.map@).contains_key(k),
        |k: Seq<char>| map_of(r.map@)[k]@,
    )
}

/// Normalized header text: trimmed, ASCII lower-cased, whitespace runs
/// collapsed to single spaces.
pub open spec fn spec_normalize(s: Seq<char>) -> Seq<char> {
    spec_join_sep(spec_split_ws(spec_lower(spec_trim(s))), seq![' '])
}

/// The character-sequence views of a slice of string slices.
pub open spec fn strs_view(a: Seq<&str>) -> Seq<Seq<char>> {
    a.map_values(|s: &str| s@)
}

/// A canonical key and its aliases folded onto a map: the canonical key
/// first, then each alias in order, every one bound to the canonical key.
pub open spec fn insert_aliases(
    m: Map<Seq<char>, Seq<char>>,
    canonical: Seq<char>,
    aliases: Seq<Seq<char>>,
) -> Map<Seq<char>, Seq<char>>
    decreases aliases.len(),
{
    if aliases.len() == 0 {
        m.insert(spec_normalize(canonical), canonical)
    } else {
        insert_aliases(m, canonical, aliases.drop_last()).insert(
            spec_normalize(aliases.last()),
            canonical,
        )
    }
}

/// Normalizes header text.
fn normalize(s: &Vec<char>) -> (r: Vec<char>)
    ensures
        r@ == spec_normalize(s@),
{
    let lowered = lower_chars(&trim_chars(s));
    let words = split_ws(&lowered);
    let mut sep: Vec<char> = Vec::new();
    sep.push(' ');
    let r = join_sep_chars(&words, &sep);
    proof {
        assert(sep@ =~= seq![' ']);
    }
    r
}

impl EventRegistry {
    /// Registers one mapping: exactly the normalized header text is bound
    /// to the canonical key, nothing else changes.
    pub fn register(&mut self, skript: &str, canonical_event_key: &str)
        ensures
            reg_map(*final(self)) == reg_map(*old(self)).insert(
                spec_normalize(skript@),
                canonical_event_key@,
            ),
    {
        let key = chars_to_string(&normalize(&str_to_chars(skript)));
        kv_insert(&mut self.map, key, String::from_str(canonical_event_key));
        proof {
            assert(reg_map(*self) =~= reg_map(*old(self)).insert(
                spec_normalize(skript@),
                canonical_event_key@,
            ));
        }
    }

    /// Registers the canonical key itself and each alias for it, in order,
    /// all bound to the canonical key; nothing else changes.
    pub fn register_aliases(&mut self, canonical_event_key: &str, aliases: &[&str])
        ensures
            reg_map(*final(self)) == insert_aliases(
                reg_map(*old(self)),
                canonical_event_key@,
                strs_view(aliases@),
            ),
    {
        self.register(canonical_event_key, canonical_event_key);
        proof {
            assert(strs_view(aliases@).take(0) =~= Seq::<Seq<char>>::empty());
            assert(reg_map(*self) == insert_aliases(
                reg_map(*old(self)),
                canonical_event_key@,
                strs_view(aliases@).take(0),
            ));
        }
        let mut i: usize = 0;
        while i < aliases.len()
            invariant
                i <= aliases@.len(),
                reg_map(*self) == insert_aliases(
                    reg_map(*old(self)),
                    canonical_event_key@,
                    strs_view(aliases@).take(i as int),
                ),
            decreases aliases@.len() - i,
        {
            let a = aliases[i];
            self.register(a, canonical_event_key);
            i = i + 1;
            proof {
                let views = strs_view(aliases@);
                assert(views.take(i as int).drop_last() =~= views.take(i - 1));
                assert(views.take(i as int).last() == aliases@[i - 1]@);
            }
        }
        proof {
            assert(strs_view(aliases@).take(aliases@.len() as int) =~= strs_view(aliases@));
        }
    }

    /// The registry preloaded with every built-in event alias: exactly the
    /// alias table below, folded group by group onto the empty map.
    pub fn new() -> (r: EventRegistry)
        ensures
            reg_map(r) == insert_aliases(
            insert_aliases(
            insert_aliases(
            insert_aliases(
            insert_aliases(
            insert_aliases(
            insert_aliases(
            insert_aliases(
            insert_aliases(
            insert_aliases(
            insert_aliases(
            insert_aliases(
            insert_aliases(
            insert_aliases(
            insert_aliases(
            insert_aliases(
            insert_aliases(
            insert_aliases(
            insert_aliases(
            insert_aliases(
            insert_aliases(
            insert_aliases(
            insert_aliases(
            insert_aliases(
            Map::<Seq<char>, Seq<char>>::empty(),
            "player join"@,
            seq!["join"@, "player join"@, "on join"@],
        ),
            "player leave"@,
            seq!["quit"@, "leave"@, "player quit"@, "player leave"@, "on quit"@, "on leave"@],
        ),
            "player login"@,
            seq!["login"@, "player login"@, "on login"@],
        ),
            "player chat"@,
            seq!["chat"@, "message"@, "player chat"@, "on chat"@],
        ),
            "player move"@,
            seq!["move"@, "player move"@, "on move"@],
        ),
            "player teleport"@,
            seq!["teleport"@, "player teleport"@, "on teleport"@],
        ),
            "player change world"@,
            seq!["change world"@, "world change"@, "player change world"@, "on change world"@],
        ),
            "player gamemode change"@,
            seq!["gamemode change"@, "game mode change"@, "player gamemode change"@, "on gamemode change"@],
        ),
            "player command send"@,
            seq!["command"@, "player command"@, "player command send"@, "on command"@],
        ),
            "player interact"@,
            seq!["right click"@, "left click"@, "click"@, "interact"@, "player interact"@, "on right click"@, "on interact"@],
        ),
            "player death"@,
            seq!["death"@, "player death"@, "death of player"@, "on death"@, "on death of player"@],
        ),
            "entity move"@,
            seq!["entity move"@, "on entity move"@],
        ),
            "entity rotate"@,
            seq!["entity rotate"@, "on entity rotate"@],
        ),
            "entity move or rotate"@,
            seq!["entity move or rotate"@, "on entity move or rotate"@],
        ),
            "player step on"@,
            seq!["player step on"@, "on player step on"@],
        ),
            "block break"@,
            seq!["break"@, "block break"@, "on break"@],
        ),
            "block place"@,
            seq!["place"@, "block place"@, "on place"@],
        ),
            "block burn"@,
            seq!["burn"@, "block burn"@, "on burn"@],
        ),
            "block can build"@,
            seq!["can build"@, "block can build"@, "on can build"@],
        ),
            "chunk load"@,
            seq!["chunk load"@, "on chunk load"@],
        ),
            "chunk save"@,
            seq!["chunk save"@, "on chunk save"@],
        ),
            "chunk send"@,
            seq!["chunk send"@, "on chunk send"@],
        ),
            "server broadcast"@,
            seq!["broadcast"@, "server broadcast"@, "on broadcast"@],
        ),
            "server command"@,
            seq!["server command"@, "console command"@, "on server command"@],
        ),
    {
        let mut r = EventRegistry { map: Vec::new() };
        proof {
            assert(reg_map(r) =~= Map::<Seq<char>, Seq<char>>::empty());
        }
        let mut a0: Vec<&str> = Vec::new();
        a0.push("join");
        a0.push("player join");
        a0.push("on join");
        r.register_aliases("player join", a0.as_slice());
        proof {
            assert(strs_view(a0@) =~= seq!["join"@, "player join"@, "on join"@]);
        }
        let mut a1: Vec<&str> = Vec::new();
        a1.push("quit");
        a1.push("leave");
        a1.push("player quit");
        a1.push("player leave");
        a1.push("on quit");
        a1.push("on leave");
        r.register_aliases("player leave", a1.as_slice());
        proof {
            assert(strs_view(a1@) =~= seq!["quit"@, "leave"@, "player quit"@, "player leave"@, "on quit"@, "on leave"@]);
        }
        let mut a2: Vec<&str> = Vec::new();
        a2.push("login");
        a2.push("player login");
        a2.push("on login");
        r.register_aliases("player login", a2.as_slice());
        proof {
            assert(strs_view(a2@) =~= seq!["login"@, "player login"@, "on login"@]);
        }
        let mut a3: Vec<&str> = Vec::new();
        a3.push("chat");
        a3.push("message");
        a3.push("player chat");
        a3.push("on chat");
        r.register_aliases("player chat", a3.as_slice());
        proof {
            assert(strs_view(a3@) =~= seq!["chat"@, "message"@, "player chat"@, "on chat"@]);
        }
        let mut a4: Vec<&str> = Vec::new();
        a4.push("move");
        a4.push("player move");
        a4.push("on move");
        r.register_aliases("player move", a4.as_slice());
        proof {
            assert(strs_view(a4@) =~= seq!["move"@, "player move"@, "on move"@]);
        }
        let mut a5: Vec<&str> = Vec::new();
        a5.push("teleport");
        a5.push("player teleport");
        a5.push("on teleport");
        r.register_aliases("player teleport", a5.as_slice());
        proof {
            assert(strs_view(a5@) =~= seq!["teleport"@, "player teleport"@, "on teleport"@]);
        }
        let mut a6: Vec<&str> = Vec::new();
        a6.push("change world");
        a6.push("world change");
        a6.push("player change world");
        a6.push("on change world");
        r.register_aliases("player change world", a6.as_slice());
        proof {
            assert(strs_view(a6@) =~= seq!["change world"@, "world change"@, "player change world"@, "on change world"@]);
        }
        let mut a7: Vec<&str> = Vec::new();
        a7.push("gamemode change");
        a7.push("game mode change");
        a7.push("player gamemode change");
        a7.push("on gamemode change");
        r.register_aliases("player gamemode change", a7.as_slice());
        proof {
            assert(strs_view(a7@) =~= seq!["gamemode change"@, "game mode change"@, "player gamemode change"@, "on gamemode change"@]);
        }
        let mut a8: Vec<&str> = Vec::new();
        a8.push("command");
        a8.push("player command");
        a8.push("player command send");
        a8.push("on command");
        r.register_aliases("player command send", a8.as_slice());
        proof {
            assert(strs_view(a8@) =~= seq!["command"@, "player command"@, "player command send"@, "on command"@]);
        }
        let mut a9: Vec<&str> = Vec::new();
        a9.push("right click");
        a9.push("left click");
        a9.push("click");
        a9.push("interact");
        a9.push("player interact");
        a9.push("on right click");
        a9.push("on interact");
        r.register_aliases("player interact", a9.as_slice());
        proof {
            assert(strs_view(a9@) =~= seq!["right click"@, "left click"@, "click"@, "interact"@, "player interact"@, "on right click"@, "on interact"@]);
        }
        let mut a10: Vec<&str> = Vec::new();
        a10.push("death");
        a10.push("player death");
        a10.push("death of player");
        a10.push("on death");
        a10.push("on death of player");
        r.register_aliases("player death", a10.as_slice());
        proof {
            assert(strs_view(a10@) =~= seq!["death"@, "player death"@, "death of player"@, "on death"@, "on death of player"@]);
        }
        let mut a11: Vec<&str> = Vec::new();
        a11.push("entity move");
        a11.push("on entity move");
        r.register_aliases("entity move", a11.as_slice());
        proof {
            assert(strs_view(a11@) =~= seq!["entity move"@, "on entity move"@]);
        }
        let mut a12: Vec<&str> = Vec::new();
        a12.push("entity rotate");
        a12.push("on entity rotate");
        r.register_aliases("entity rotate", a12.as_slice());
        proof {
            assert(strs_view(a12@) =~= seq!["entity rotate"@, "on entity rotate"@]);
        }
        let mut a13: Vec<&str> = Vec::new();
        a13.push("entity move or rotate");
        a13.push("on entity move or rotate");
        r.register_aliases("entity move or rotate", a13.as_slice());
        proof {
            assert(strs_view(a13@) =~= seq!["entity move or rotate"@, "on entity move or rotate"@]);
        }
        let mut a14: Vec<&str> = Vec::new();
        a14.push("player step on");
        a14.push("on player step on");
        r.register_aliases("player step on", a14.as_slice());
        proof {
            assert(strs_view(a14@) =~= seq!["player step on"@, "on player step on"@]);
        }
        let mut a15: Vec<&str> = Vec::new();
        a15.push("break");
        a15.push("block break");
        a15.push("on break");
        r.register_aliases("block break", a15.as_slice());
        proof {
            assert(strs_view(a15@) =~= seq!["break"@, "block break"@, "on break"@]);
        }
        let mut a16: Vec<&str> = Vec::new();
        a16.push("place");
        a16.push("block place");
        a16.push("on place");
        r.register_aliases("block place", a16.as_slice());
        proof {
            assert(strs_view(a16@) =~= seq!["place"@, "block place"@, "on place"@]);
        }
        let mut a17: Vec<&str> = Vec::new();
        a17.push("burn");
        a17.push("block burn");
        a17.push("on burn");
        r.register_aliases("block burn", a17.as_slice());
        proof {
            assert(strs_view(a17@) =~= seq!["burn"@, "block burn"@, "on burn"@]);
        }
        let mut a18: Vec<&str> = Vec::new();
        a18.push("can build");
        a18.push("block can build");
        a18.push("on can build");
        r.register_aliases("block can build", a18.as_slice());
        proof {
            assert(strs_view(a18@) =~= seq!["can build"@, "block can build"@, "on can build"@]);
        }
        let mut a19: Vec<&str> = Vec::new();
        a19.push("chunk load");
        a19.push("on chunk load");
        r.register_aliases("chunk load", a19.as_slice());
        proof {
            assert(strs_view(a19@) =~= seq!["chunk load"@, "on chunk load"@]);
        }
        let mut a20: Vec<&str> = Vec::new();
        a20.push("chunk save");
        a20.push("on chunk save");
        r.register_aliases("chunk save", a20.as_slice());
        proof {
            assert(strs_view(a20@) =~= seq!["chunk save"@, "on chunk save"@]);
        }
        let mut a21: Vec<&str> = Vec::new();
        a21.push("chunk send");
        a21.push("on chunk send");
        r.register_aliases("chunk send", a21.as_slice());
        proof {
            assert(strs_view(a21@) =~= seq!["chunk send"@, "on chunk send"@]);
        }
        let mut a22: Vec<&str> = Vec::new();
        a22.push("broadcast");
        a22.push("server broadcast");
        a22.push("on broadcast");
        r.register_aliases("server broadcast", a22.as_slice());
        proof {
            assert(strs_view(a22@) =~= seq!["broadcast"@, "server broadcast"@, "on broadcast"@]);
        }
        let mut a23: Vec<&str> = Vec::new();
        a23.push("server command");
        a23.push("console command");
        a23.push("on server command");
        r.register_aliases("server command", a23.as_slice());
        proof {
            assert(strs_view(a23@) =~= seq!["server command"@, "console command"@, "on server command"@]);
        }
        r
    }

    /// Parses one trigger header: an exact alias-table hit first, then the
    /// step-on pattern with the item text as its single argument, then the
    /// move/rotate patterns; a recognized event's name is never empty.
    pub fn parse_header(&self, header_raw: &str) -> (r: Option<ParsedEvent>)
        ensures
            (reg_map(*self).contains_key(spec_normalize(header_raw@)) && reg_map(
                *self,
            )[spec_normalize(header_raw@)].len() > 0) ==> (r matches Some(pe) && pe.event_name@
                == reg_map(*self)[spec_normalize(header_raw@)] && pe.args@.len() == 0),
            !reg_map(*self).contains_key(spec_normalize(header_raw@)) ==> (spec_step_on(
                spec_normalize(header_raw@),
            ) matches Some(rest) ==> (spec_trim(rest).len() > 0 ==> (r matches Some(pe)
                && pe.event_name@ == "player step on"@ && pe.args@.len() == 1 && pe.args@[0]@
                == spec_trim(rest)))),
            r matches Some(pe) ==> pe.event_name@.len() > 0,
    {
        let key = normalize(&str_to_chars(header_raw));
        let key_string = chars_to_string(&key);
        match kv_get(&self.map, key_string.as_str()) {
            Some(event_name) => {
                let name = event_name.clone();
                if name.unicode_len() == 0 {
                    return None;
                }
                return Some(ParsedEvent { event_name: name, args: Vec::new() });
            },
            None => {},
        }
        if let Some(rest) = strip_step_on_prefix(&key) {
            let itemtypes = trim_chars(&rest);
            if itemtypes.len() > 0 {
                let mut args: Vec<String> = Vec::new();
                args.push(chars_to_string(&itemtypes));
                proof {
                    reveal_strlit("player step on");
                }
                return Some(
                    ParsedEvent { event_name: String::from_str("player step on"), args },
                );
            }
        }
        let player_kw = str_to_chars("player ");
        if starts_with_chars(&key, &player_kw) {
            let rest = chars_sub(&key, player_kw.len(), key.len());
            return parse_entity_move_header("player", &rest);
        }
        let entity_kw = str_to_chars("entity ");
        if starts_with_chars(&key, &entity_kw) {
            let rest = chars_sub(&key, entity_kw.len(), key.len());
            return parse_entity_move_header("entity", &rest);
        }
        None
    }
}

/// Attaches parsed events to every trigger header of a script: each
/// trigger's event becomes the parse of its raw header, and nothing else of
/// the script changes.
pub fn attach_events(script: &mut Script, reg: &EventRegistry)
    ensures
        final(script).triggers@.len() == old(script).triggers@.len(),
        final(script).options == old(script).options,
        final(script).variables == old(script).variables,
        final(script).functions == old(script).functions,
        final(script).commands == old(script).commands,
        forall|i: int|
            0 <= i < old(script).triggers@.len()
                ==> (#[trigger] final(script).triggers@[i]).header.raw
                == old(script).triggers@[i].header.raw && final(script).triggers@[i].body == old(
                script,
            ).triggers@[i].body && final(script).triggers@[i].span == old(
                script,
            ).triggers@[i].span,
        forall|i: int|
            0 <= i < old(script).triggers@.len() && reg_map(*reg).contains_key(
                spec_normalize((#[trigger] old(script).triggers@[i]).header.raw@),
            ) && reg_map(*reg)[spec_normalize(old(script).triggers@[i].header.raw@)].len() > 0
                ==> (final(script).triggers@[i].header.event matches Some(pe) && pe.event_name@
                == reg_map(*reg)[spec_normalize(old(script).triggers@[i].header.raw@)]
                && pe.args@.len() == 0),
{
    let mut i: usize = 0;
    while i < script.triggers.len()
        invariant
            script.triggers@.len() == old(script).triggers@.len(),
            script.options == old(script).options,
            script.variables == old(script).variables,
            script.functions == old(script).functions,
            script.commands == old(script).commands,
            i <= script.triggers@.len(),
            forall|x: int|
                i <= x < script.triggers@.len() ==> #[trigger] script.triggers@[x] == old(
                    script,
                ).triggers@[x],
            forall|x: int|
                0 <= x < i ==> (#[trigger] script.triggers@[x]).header.raw == old(
                    script,
                ).triggers@[x].header.raw && script.triggers@[x].body == old(
                    script,
                ).triggers@[x].body && script.triggers@[x].span == old(script).triggers@[x].span,
            forall|x: int|
                0 <= x < i && reg_map(*reg).contains_key(
                    spec_normalize((#[trigger] old(script).triggers@[x]).header.raw@),
                ) && reg_map(*reg)[spec_normalize(old(script).triggers@[x].header.raw@)].len() > 0
                    ==> (script.triggers@[x].header.event matches Some(pe) && pe.event_name@
                    == reg_map(*reg)[spec_normalize(old(script).triggers@[x].header.raw@)]
                    && pe.args@.len() == 0),
        decreases script.triggers@.len() - i,
    {
        let parsed = reg.parse_header(script.triggers[i].header.raw.as_str());
        let ghost pre = script.triggers@;
        let mut trig = script.triggers.remove(i);
        trig.header.event = parsed;
        script.triggers.insert(i, trig);
        proof {
            assert forall|x: int|
                0 <= x < script.triggers@.len() && x != i implies #[trigger] script.triggers@[x]
                == pre[x] by {
                assert(script.triggers@ == pre.remove(i as int).insert(
                    i as int,
                    script.triggers@[i as int],
                ));
            }
        }
        i = i + 1;
    }
}

/// Whether `p` is a prefix of `s`.
pub open spec fn spec_is_prefix(p: Seq<char>, s: Seq<char>) -> bool {
    s.len() >= p.len() && s.take(p.len() as int) == p
}

/// The text after a step-on/walk-over phrase prefix, if one applies; the
/// first matching phrase, in this order, wins.
pub open spec fn spec_step_on(key: Seq<char>) -> Option<Seq<char>> {
    if spec_is_prefix("stepping on "@, key) {
        Some(key.skip("stepping on "@.len() as int))
    } else     if spec_is_prefix("stepping over "@, key) {
        Some(key.skip("stepping over "@.len() as int))
    } else     if spec_is_prefix("walking on "@, key) {
        Some(key.skip("walking on "@.len() as int))
    } else     if spec_is_prefix("walking over "@, key) {
        Some(key.skip("walking over "@.len() as int))
    } else     if spec_is_prefix("step on "@, key) {
        Some(key.skip("step on "@.len() as int))
    } else     if spec_is_prefix("step over "@, key) {
        Some(key.skip("step over "@.len() as int))
    } else     if spec_is_prefix("walk on "@, key) {
        Some(key.skip("walk on "@.len() as int))
    } else     if spec_is_prefix("walk over "@, key) {
        Some(key.skip("walk over "@.len() as int))
    } else {
        None
    }
}

/// Strips a step-on/walk-over phrase prefix, if present.
fn strip_step_on_prefix(key: &Vec<char>) -> (r: Option<Vec<char>>)
    ensures
        (r is Some) == (spec_step_on(key@) is Some),
        r matches Some(rest) ==> rest@ == spec_step_on(key@)->0,
{
    let kw = str_to_chars("stepping on ");
    if starts_with_chars(key, &kw) {
        let rest = chars_sub(key, kw.len(), key.len());
        proof {
            assert(rest@ =~= key@.skip("stepping on "@.len() as int));
        }
        return Some(rest);
    }
    let kw = str_to_chars("stepping over ");
    if starts_with_chars(key, &kw) {
        let rest = chars_sub(key, kw.len(), key.len());
        proof {
            assert(rest@ =~= key@.skip("stepping over "@.len() as int));
        }
        return Some(rest);
    }
    let kw = str_to_chars("walking on ");
    if starts_with_chars(key, &kw) {
        let rest = chars_sub(key, kw.len(), key.len());
        proof {
            assert(rest@ =~= key@.skip("walking on "@.len() as int));
        }
        return Some(rest);
    }
    let kw = str_to_chars("walking over ");
    if starts_with_chars(key, &kw) {
        let rest = chars_sub(key, kw.len(), key.len());
        proof {
            assert(rest@ =~= key@.skip("walking over "@.len() as int));
        }
        return Some(rest);
    }
    let kw = str_to_chars("step on ");
    if starts_with_chars(key, &kw) {
        let rest = chars_sub(key, kw.len(), key.len());
        proof {
            assert(rest@ =~= key@.skip("step on "@.len() as int));
        }
        return Some(rest);
    }
    let kw = str_to_chars("step over ");
    if starts_with_chars(key, &kw) {
        let rest = chars_sub(key, kw.len(), key.len());
        proof {
            assert(rest@ =~= key@.skip("step over "@.len() as int));
        }
        return Some(rest);
    }
    let kw = str_to_chars("walk on ");
    if starts_with_chars(key, &kw) {
        let rest = chars_sub(key, kw.len(), key.len());
        proof {
            assert(rest@ =~= key@.skip("walk on "@.len() as int));
        }
        return Some(rest);
    }
    let kw = str_to_chars("walk over ");
    if starts_with_chars(key, &kw) {
        let rest = chars_sub(key, kw.len(), key.len());
        proof {
            assert(rest@ =~= key@.skip("walk over "@.len() as int));
        }
        return Some(rest);
    }
    None
}

/// Whether the rest of a move/rotate header equals one of the listed
/// phrases.
fn matches_any(rest: &Vec<char>, phrases: &Vec<Vec<char>>) -> (r: bool) {
    let mut i: usize = 0;
    while i < phrases.len()
        decreases phrases@.len() - i,
    {
        if chars_eq(rest, &phrases[i]) {
            return true;
        }
        i = i + 1;
    }
    false
}

/// Recognizes `move`, `rotate` and combined move-or-rotate phrases after a
/// `player ` or `entity ` prefix.
fn parse_entity_move_header(entity_filter: &str, rest: &Vec<char>) -> (r: Option<ParsedEvent>)
    ensures
        r matches Some(pe) ==> pe.event_name@.len() > 0,
{
    let t = trim_chars(rest);
    let mut rotate_phrases: Vec<Vec<char>> = Vec::new();
    rotate_phrases.push(str_to_chars("rotate"));
    rotate_phrases.push(str_to_chars("turn around"));
    rotate_phrases.push(str_to_chars("turning around"));
    let mut move_phrases: Vec<Vec<char>> = Vec::new();
    move_phrases.push(str_to_chars("move"));
    move_phrases.push(str_to_chars("walk"));
    move_phrases.push(str_to_chars("step"));
    let mut combined: Vec<Vec<char>> = Vec::new();
    combined.push(str_to_chars("move or rotate"));
    combined.push(str_to_chars("walk or rotate"));
    combined.push(str_to_chars("step or rotate"));
    combined.push(str_to_chars("rotate or move"));
    combined.push(str_to_chars("rotate or walk"));
    combined.push(str_to_chars("rotate or step"));
    combined.push(str_to_chars("move or turn around"));
    combined.push(str_to_chars("walk or turn around"));
    combined.push(str_to_chars("step or turn around"));
    combined.push(str_to_chars("turn around or move"));
    combined.push(str_to_chars("turn around or walk"));
    combined.push(str_to_chars("turn around or step"));
    combined.push(str_to_chars("move or turning around"));
    combined.push(str_to_chars("walk or turning around"));
    combined.push(str_to_chars("step or turning around"));
    combined.push(str_to_chars("turning around or move"));
    combined.push(str_to_chars("turning around or walk"));
    combined.push(str_to_chars("turning around or step"));
    let mut args: Vec<String> = Vec::new();
    args.push(String::from_str(entity_filter));
    if matches_any(&t, &combined) {
        proof {
            reveal_strlit("entity move or rotate");
        }
        return Some(
            ParsedEvent { event_name: String::from_str("entity move or rotate"), args },
        );
    }
    if matches_any(&t, &rotate_phrases) {
        proof {
            reveal_strlit("entity rotate");
        }
        return Some(ParsedEvent { event_name: String::from_str("entity rotate"), args });
    }
    if matches_any(&t, &move_phrases) {
        proof {
            reveal_strlit("entity move");
        }
        return Some(ParsedEvent { event_name: String::from_str("entity move"), args });
    }
    None
}

} // verus!
