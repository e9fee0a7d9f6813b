//! The script manager: bookkeeping for every known script file — enabled,
//! disabled, loaded, errored — keyed by normalized name. Disk itself is the
//! host's concern: the host lists, reads and renames files and hands the
//! outcomes in as plain values.

use vstd::prelude::*;

use crate::diagnostics::SkriptError;
use crate::kvlist::{kv_get, kv_insert, map_of};
use crate::registry::events::TriggerRegistry;
use crate::script::{Script, ScriptSource};
use crate::strutil::{
    chars_eq, chars_sub, chars_to_string, lower_chars, rfind_char, spec_lower, spec_trim,
    str_to_chars, trim_chars,
};

verus! {

/// The state of one known script.
#[derive(Clone, Debug)]
pub struct ScriptStatus {
    /// The normalized name, such as `test.sk`, never with a leading `-`.
    pub name: String,
    /// Whether the script is currently loaded.
    pub loaded: bool,
    /// Whether the script is disabled on disk.
    pub disabled: bool,
    /// The last load error, if any.
    pub error: Option<String>,
}

/// What one full reload produced.
#[derive(Debug)]
pub struct ReloadReport {
    /// How many triggers the reload installed.
    pub trigger_count: usize,
    /// The diagnostics the reload produced.
    pub errors: Vec<SkriptError>,
    /// The scripts that loaded.
    pub scripts: Vec<Script>,
}

/// The result of loading every enabled script.
#[derive(Debug)]
pub struct LoadScriptsResult {
    /// The scripts that parsed and validated.
    pub scripts: Vec<Script>,
    /// The diagnostics of scripts that did not.
    pub errors: Vec<SkriptError>,
}

/// Tracks every known script and where scripts live on disk.
pub struct ScriptManager {
    /// Where scripts live on disk.
    pub scripts_dir: String,
    /// Status by normalized script name.
    pub scripts: Vec<(String, ScriptStatus)>,
}

/// The normalized form of a script name: trimmed, one leading `-` removed,
/// ASCII lower-cased, and given a `.sk` suffix when the lower-cased name
/// does not already end in one.
pub open spec fn spec_normalize_name(s: Seq<char>) -> Seq<char> {
    let t = spec_trim(s);
    let core = if t.len() > 0 && t[0] == '-' {
        t.skip(1)
    } else {
        t
    };
    let low = spec_lower(core);
    if low.len() >= 3 && low.skip(low.len() - 3) == ".sk"@ {
        low
    } else {
        low + ".sk"@
    }
}

/// The status names with the given disabled flag, in storage order.
pub open spec fn spec_names_where(entries: Seq<(String, ScriptStatus)>, want_disabled: bool) -> Seq<
    Seq<char>,
>
    decreases entries.len(),
{
    if entries.len() == 0 {
        Seq::empty()
    } else {
        let head = spec_names_where(entries.drop_last(), want_disabled);
        if entries.last().1.disabled == want_disabled {
            head.push(entries.last().1.name@)
        } else {
            head
        }
    }
}

/// Status fidelity: the same name, flags and error text.
pub open spec fn status_like(a: ScriptStatus, b: ScriptStatus) -> bool {
    &&& a.name@ == b.name@
    &&& a.loaded == b.loaded
    &&& a.disabled == b.disabled
    &&& (a.error is Some) == (b.error is Some)
    &&& (a.error matches Some(e) ==> (b.error matches Some(e2) && e@ == e2@))
}

/// Copies a status.
fn clone_status(s: &ScriptStatus) -> (r: ScriptStatus)
    ensures
        status_like(r, *s),
{
    let error = match &s.error {
        Some(e) => Some(e.clone()),
        None => None,
    };
    ScriptStatus { name: s.name.clone(), loaded: s.loaded, disabled: s.disabled, error }
}

/// Normalizes a script name.
pub fn normalize_name(name: &str) -> (r: String)
    ensures
        r@ == spec_normalize_name(name@),
{
    let t = trim_chars(&str_to_chars(name));
    let s = if t.len() > 0 && t[0] == '-' {
        chars_sub(&t, 1, t.len())
    } else {
        t
    };
    proof {
        let tt = spec_trim(name@);
        if tt.len() > 0 && tt[0] == '-' {
            assert(s@ =~= tt.skip(1));
        }
    }
    let lower = lower_chars(&s);
    let suffix = str_to_chars(".sk");
    let has_suffix = if lower.len() >= 3 {
        let tail = chars_sub(&lower, lower.len() - 3, lower.len());
        proof {
            assert(tail@ =~= lower@.skip(lower@.len() - 3));
        }
        chars_eq(&tail, &suffix)
    } else {
        false
    };
    if has_suffix {
        chars_to_string(&lower)
    } else {
        let mut out = lower;
        out.push('.');
        out.push('s');
        out.push('k');
        proof {
            reveal_strlit(".sk");
            assert(out@ =~= spec_lower(s@) + ".sk"@);
        }
        chars_to_string(&out)
    }
}

impl ScriptManager {
    /// The status map the manager denotes.
    pub open spec fn spec_map(self) -> Map<Seq<char>, ScriptStatus> {
        map_of(self.scripts@)
    }

    /// A manager over the default scripts directory.
    pub fn new() -> (r: ScriptManager)
        ensures
            r.spec_map() == Map::<Seq<char>, ScriptStatus>::empty(),
            r.spec_dir() == "plugins/skrs/scripts"@,
    {
        Self::with_dir(String::from_str("plugins/skrs/scripts"))
    }

    /// A manager over the given scripts directory.
    pub fn with_dir(dir: String) -> (r: ScriptManager)
        ensures
            r.spec_map() == Map::<Seq<char>, ScriptStatus>::empty(),
            r.spec_dir() == dir@,
    {
        ScriptManager { scripts_dir: dir, scripts: Vec::new() }
    }

    /// The configured scripts directory.
    pub open spec fn spec_dir(self) -> Seq<char> {
        self.scripts_dir@
    }

    /// Where scripts live on disk.
    pub fn scripts_dir(&self) -> (r: &String)
        ensures
            r@ == self.spec_dir(),
    {
        &self.scripts_dir
    }

    /// Every known script's status, in storage order.
    pub fn list(&self) -> (r: Vec<ScriptStatus>)
        ensures
            r@.len() == self.scripts@.len(),
            forall|i: int|
                0 <= i < r@.len() ==> status_like(#[trigger] r@[i], self.scripts@[i].1),
    {
        let mut out: Vec<ScriptStatus> = Vec::new();
        let mut i: usize = 0;
        while i < self.scripts.len()
            invariant
                i <= self.scripts@.len(),
                out@.len() == i,
                forall|x: int|
                    0 <= x < i ==> status_like(#[trigger] out@[x], self.scripts@[x].1),
            decreases self.scripts@.len() - i,
        {
            out.push(clone_status(&self.scripts[i].1));
            i = i + 1;
        }
        out
    }

    /// The status of one script, looked up under its normalized name.
    pub fn info(&self, name: &str) -> (r: Option<ScriptStatus>)
        ensures
            (r is Some) == self.spec_map().contains_key(spec_normalize_name(name@)),
            r matches Some(st) ==> status_like(
                st,
                self.spec_map()[spec_normalize_name(name@)],
            ),
    {
        let key = normalize_name(name);
        match kv_get(&self.scripts, key.as_str()) {
            Some(st) => Some(clone_status(st)),
            None => None,
        }
    }

    /// Every known script's normalized name, in storage order.
    pub fn all_script_names(&self) -> (r: Vec<String>)
        ensures
            r@.len() == self.scripts@.len(),
            forall|i: int| 0 <= i < r@.len() ==> (#[trigger] r@[i])@ == self.scripts@[i].0@,
    {
        let mut out: Vec<String> = Vec::new();
        let mut i: usize = 0;
        while i < self.scripts.len()
            invariant
                i <= self.scripts@.len(),
                out@.len() == i,
                forall|x: int| 0 <= x < i ==> (#[trigger] out@[x])@ == self.scripts@[x].0@,
            decreases self.scripts@.len() - i,
        {
            out.push(self.scripts[i].0.clone());
            i = i + 1;
        }
        out
    }

    /// The names of the scripts that are enabled on disk: exactly the
    /// entries whose status is not disabled, in storage order.
    pub fn enabled_script_names(&self) -> (r: Vec<String>)
        ensures
            r.deep_view() == spec_names_where(self.scripts@, false),
    {
        self.names_where(false)
    }

    /// The names of the scripts that are disabled on disk: exactly the
    /// entries whose status is disabled, in storage order.
    pub fn disabled_script_names(&self) -> (r: Vec<String>)
        ensures
            r.deep_view() == spec_names_where(self.scripts@, true),
    {
        self.names_where(true)
    }

    /// The names of the statuses with the given disabled flag, in order.
    fn names_where(&self, want_disabled: bool) -> (r: Vec<String>)
        ensures
            r.deep_view() == spec_names_where(self.scripts@, want_disabled),
    {
        let mut out: Vec<String> = Vec::new();
        let mut i: usize = 0;
        proof {
            assert(self.scripts@.take(0) =~= Seq::<(String, ScriptStatus)>::empty());
            assert(out.deep_view() =~~= Seq::<Seq<char>>::empty());
        }
        while i < self.scripts.len()
            invariant
                i <= self.scripts@.len(),
                out.deep_view() == spec_names_where(
                    self.scripts@.take(i as int),
                    want_disabled,
                ),
            decreases self.scripts@.len() - i,
        {
            proof {
                assert(self.scripts@.take(i + 1).drop_last() =~= self.scripts@.take(i as int));
                assert(self.scripts@.take(i + 1).last() == self.scripts@[i as int]);
            }
            let ghost pre = out.deep_view();
            if self.scripts[i].1.disabled == want_disabled {
                let nm = self.scripts[i].1.name.clone();
                out.push(nm);
                proof {
                    assert(out.deep_view() =~~= pre.push(
                        self.scripts@[i as int].1.name@,
                    ));
                }
            }
            i = i + 1;
        }
        proof {
            assert(self.scripts@.take(self.scripts@.len() as int) =~= self.scripts@);
        }
        out
    }

    /// Brings the status list in line with a directory listing: one entry
    /// per `.sk` file name (a leading `-` meaning disabled), entries no
    /// longer listed dropped. Returns how many files the listing held.
    pub fn sync_from_disk(&mut self, listing: &Vec<String>) -> (r: usize)
        ensures
            r == listing@.len(),
    {
        let mut fresh: Vec<(String, ScriptStatus)> = Vec::new();
        let mut i: usize = 0;
        while i < listing.len()
            invariant
                i <= listing@.len(),
            decreases listing@.len() - i,
        {
            let file = str_to_chars(listing[i].as_str());
            let is_disabled = file.len() > 0 && file[0] == '-';
            let display = if is_disabled {
                chars_sub(&file, 1, file.len())
            } else {
                file
            };
            let key = normalize_name(chars_to_string(&display).as_str());
            let key2 = key.clone();
            let status = match kv_get(&self.scripts, key.as_str()) {
                Some(old_status) => {
                    let mut st = old_status.clone();
                    st.disabled = is_disabled;
                    if is_disabled {
                        st.loaded = false;
                        st.error = None;
                    }
                    st
                },
                None => ScriptStatus {
                    name: key2,
                    loaded: false,
                    disabled: is_disabled,
                    error: None,
                },
            };
            kv_insert(&mut fresh, key, status);
            i = i + 1;
        }
        self.scripts = fresh;
        listing.len()
    }

    /// Sets a key's status to loaded: error cleared, not disabled; a fresh
    /// entry takes the key as its name, an existing entry keeps its name.
    fn upsert_loaded(&mut self, key: String)
        ensures
            final(self).spec_dir() == old(self).spec_dir(),
            final(self).spec_map().contains_key(key@),
            final(self).spec_map()[key@].loaded,
            !final(self).spec_map()[key@].disabled,
            final(self).spec_map()[key@].error is None,
            final(self).spec_map()[key@].name@ == (if old(self).spec_map().contains_key(key@) {
                old(self).spec_map()[key@].name@
            } else {
                key@
            }),
            forall|k: Seq<char>|
                k != key@ ==> (#[trigger] final(self).spec_map().contains_key(k) == old(self).spec_map().contains_key(k) && (old(self).spec_map().contains_key(k) ==> final(self).spec_map()[k] == old(self).spec_map()[k])),
    {
        let key2 = key.clone();
        let status = match kv_get(&self.scripts, key.as_str()) {
            Some(old_status) => {
                let mut st = clone_status(old_status);
                st.loaded = true;
                st.disabled = false;
                st.error = None;
                proof {
                    assert(st.name@ == old(self).spec_map()[key@].name@);
                }
                st
            },
            None => ScriptStatus { name: key2, loaded: true, disabled: false, error: None },
        };
        kv_insert(&mut self.scripts, key, status);
    }

    /// Marks a script loaded, under its normalized name, and clears its
    /// error; whether it was disabled is overwritten to enabled. A script
    /// not yet known is added.
    pub fn mark_loaded(&mut self, name: &str)
        ensures
            final(self).spec_dir() == old(self).spec_dir(),
            final(self).spec_map().contains_key(spec_normalize_name(name@)),
            final(self).spec_map()[spec_normalize_name(name@)].loaded,
            !final(self).spec_map()[spec_normalize_name(name@)].disabled,
            final(self).spec_map()[spec_normalize_name(name@)].error is None,
            forall|k: Seq<char>|
                k != spec_normalize_name(name@) ==> (#[trigger] final(self).spec_map().contains_key(k) == old(self).spec_map().contains_key(k) && (old(self).spec_map().contains_key(k) ==> final(self).spec_map()[k] == old(self).spec_map()[k])),
    {
        let key = normalize_name(name);
        self.upsert_loaded(key);
    }

    /// Marks a script errored and not loaded, under its normalized name,
    /// with the given error text; whether it is disabled stays as it was,
    /// and a script not yet known is added as enabled.
    pub fn mark_error(&mut self, name: &str, err: String)
        ensures
            final(self).spec_dir() == old(self).spec_dir(),
            final(self).spec_map().contains_key(spec_normalize_name(name@)),
            !final(self).spec_map()[spec_normalize_name(name@)].loaded,
            final(self).spec_map()[spec_normalize_name(name@)].error matches Some(e) && e@
                == err@,
            final(self).spec_map()[spec_normalize_name(name@)].disabled == (if old(self).spec_map().contains_key(spec_normalize_name(name@)) {
                old(self).spec_map()[spec_normalize_name(name@)].disabled
            } else {
                false
            }),
            forall|k: Seq<char>|
                k != spec_normalize_name(name@) ==> (#[trigger] final(self).spec_map().contains_key(k) == old(self).spec_map().contains_key(k) && (old(self).spec_map().contains_key(k) ==> final(self).spec_map()[k] == old(self).spec_map()[k])),
    {
        let key = normalize_name(name);
        let key2 = key.clone();
        let status = match kv_get(&self.scripts, key.as_str()) {
            Some(old_status) => {
                let mut st = clone_status(old_status);
                st.loaded = false;
                st.error = Some(err);
                st
            },
            None => ScriptStatus {
                name: key2,
                loaded: false,
                disabled: false,
                error: Some(err),
            },
        };
        kv_insert(&mut self.scripts, key, status);
    }

    /// Loads one script by name: refuses a script known to be disabled,
    /// leaving everything unchanged, and otherwise records it as loaded.
    pub fn load(&mut self, name: &str) -> (r: Result<(), String>)
        ensures
            final(self).spec_dir() == old(self).spec_dir(),
            (r is Err) == (old(self).spec_map().contains_key(spec_normalize_name(name@)) && old(self).spec_map()[spec_normalize_name(name@)].disabled),
            r is Err ==> *final(self) == *old(self),
            r is Ok ==> (final(self).spec_map().contains_key(spec_normalize_name(name@)) && final(self).spec_map()[spec_normalize_name(name@)].loaded && !final(self).spec_map()[spec_normalize_name(name@)].disabled && final(self).spec_map()[spec_normalize_name(name@)].error is None),
            forall|k: Seq<char>|
                k != spec_normalize_name(name@) ==> (#[trigger] final(self).spec_map().contains_key(k) == old(self).spec_map().contains_key(k) && (old(self).spec_map().contains_key(k) ==> final(self).spec_map()[k] == old(self).spec_map()[k])),
    {
        let key = normalize_name(name);
        match kv_get(&self.scripts, key.as_str()) {
            Some(st) => {
                if st.disabled {
                    return Err(
                        String::from_str("Script is disabled (rename it back to enable)."),
                    );
                }
            },
            None => {},
        }
        self.upsert_loaded(key);
        proof {
            assert forall|k: Seq<char>|
                k != spec_normalize_name(name@) implies (self.spec_map().contains_key(k) == old(
                self,
            ).spec_map().contains_key(k) && (old(self).spec_map().contains_key(k)
                ==> self.spec_map()[k] == old(self).spec_map()[k])) by {}
        }
        Ok(())
    }

    /// Unloads one script by name: its loaded flag and error are cleared,
    /// its name and disabled flag stay; an unknown script is an error and
    /// nothing changes.
    pub fn unload(&mut self, name: &str) -> (r: Result<(), String>)
        ensures
            final(self).spec_dir() == old(self).spec_dir(),
            (r is Err) == !old(self).spec_map().contains_key(spec_normalize_name(name@)),
            r is Err ==> *final(self) == *old(self),
            r is Ok ==> (final(self).spec_map().contains_key(spec_normalize_name(name@)) && !final(self).spec_map()[spec_normalize_name(name@)].loaded && final(self).spec_map()[spec_normalize_name(name@)].error is None && final(self).spec_map()[spec_normalize_name(name@)].disabled == old(self).spec_map()[spec_normalize_name(name@)].disabled && final(self).spec_map()[spec_normalize_name(name@)].name@ == old(self).spec_map()[spec_normalize_name(name@)].name@),
            forall|k: Seq<char>|
                k != spec_normalize_name(name@) ==> (#[trigger] final(self).spec_map().contains_key(k) == old(self).spec_map().contains_key(k) && (old(self).spec_map().contains_key(k) ==> final(self).spec_map()[k] == old(self).spec_map()[k])),
    {
        let key = normalize_name(name);
        let status = match kv_get(&self.scripts, key.as_str()) {
            Some(old_status) => {
                let mut st = clone_status(old_status);
                st.loaded = false;
                st.error = None;
                st
            },
            None => {
                return Err(String::from_str("Unknown script"));
            },
        };
        kv_insert(&mut self.scripts, key, status);
        Ok(())
    }

    /// Reloads one script by name: refuses a script known to be disabled,
    /// leaving everything unchanged; otherwise it ends up loaded with its
    /// error cleared.
    pub fn reload(&mut self, name: &str) -> (r: Result<(), String>)
        ensures
            final(self).spec_dir() == old(self).spec_dir(),
            (r is Err) == (old(self).spec_map().contains_key(spec_normalize_name(name@)) && old(self).spec_map()[spec_normalize_name(name@)].disabled),
            r is Err ==> *final(self) == *old(self),
            r is Ok ==> (final(self).spec_map().contains_key(spec_normalize_name(name@)) && final(self).spec_map()[spec_normalize_name(name@)].loaded && !final(self).spec_map()[spec_normalize_name(name@)].disabled && final(self).spec_map()[spec_normalize_name(name@)].error is None),
            forall|k: Seq<char>|
                k != spec_normalize_name(name@) ==> (#[trigger] final(self).spec_map().contains_key(k) == old(self).spec_map().contains_key(k) && (old(self).spec_map().contains_key(k) ==> final(self).spec_map()[k] == old(self).spec_map()[k])),
    {
        let key = normalize_name(name);
        match kv_get(&self.scripts, key.as_str()) {
            Some(st) => {
                if st.disabled {
                    return Err(String::from_str("Script is disabled."));
                }
            },
            None => {},
        }
        self.upsert_loaded(key);
        proof {
            assert forall|k: Seq<char>|
                k != spec_normalize_name(name@) implies (self.spec_map().contains_key(k) == old(
                self,
            ).spec_map().contains_key(k) && (old(self).spec_map().contains_key(k)
                ==> self.spec_map()[k] == old(self).spec_map()[k])) by {}
        }
        Ok(())
    }

    /// Applies a full reload: syncs the status list to the given disk
    /// listing, resets every load state, installs the parsed scripts'
    /// triggers into the trigger registry, and marks each script loaded or
    /// errored as the load outcome says.
    pub fn reload_all(
        &mut self,
        listing: &Vec<String>,
        loaded: LoadScriptsResult,
        events: &mut TriggerRegistry,
    ) -> (r: Result<ReloadReport, String>) {
        let _count = self.sync_from_disk(listing);
        let mut cleared: Vec<(String, ScriptStatus)> = Vec::new();
        let mut i: usize = 0;
        while i < self.scripts.len()
            invariant
                i <= self.scripts@.len(),
            decreases self.scripts@.len() - i,
        {
            let key = self.scripts[i].0.clone();
            let mut st = self.scripts[i].1.clone();
            st.loaded = false;
            st.error = None;
            kv_insert(&mut cleared, key, st);
            i = i + 1;
        }
        self.scripts = cleared;
        let LoadScriptsResult { scripts, errors } = loaded;
        let mut names: Vec<String> = Vec::new();
        let mut k: usize = 0;
        while k < scripts.len()
            invariant
                k <= scripts@.len(),
            decreases scripts@.len() - k,
        {
            match &scripts[k].source {
                ScriptSource::File { path } => {
                    let chars = str_to_chars(path.as_str());
                    let cl = chars.len();
                    let base = match rfind_char(&chars, '/') {
                        Some(p) => chars_sub(&chars, p + 1, cl),
                        None => chars,
                    };
                    names.push(chars_to_string(&base));
                },
                ScriptSource::Inline { .. } => {},
            }
            k = k + 1;
        }
        let mut n: usize = 0;
        while n < names.len()
            decreases names@.len() - n,
        {
            self.mark_loaded(names[n].as_str());
            n = n + 1;
        }
        let mut e: usize = 0;
        while e < errors.len()
            invariant
                e <= errors@.len(),
            decreases errors@.len() - e,
        {
            let err = &errors[e];
            let chars = str_to_chars(err.file.as_str());
            let cl = chars.len();
            let base = match rfind_char(&chars, '/') {
                Some(p) => chars_sub(&chars, p + 1, cl),
                None => chars,
            };
            let mut summary = str_to_chars(err.message.as_str());
            let mut tail = str_to_chars(" (line ");
            let mut num = crate::strutil::u64_to_chars(err.line as u64);
            let mut m: usize = 0;
            while m < tail.len()
                decreases tail@.len() - m,
            {
                summary.push(tail[m]);
                m = m + 1;
            }
            let mut m2: usize = 0;
            while m2 < num.len()
                decreases num@.len() - m2,
            {
                summary.push(num[m2]);
                m2 = m2 + 1;
            }
            summary.push(')');
            self.mark_error(chars_to_string(&base).as_str(), chars_to_string(&summary));
            e = e + 1;
        }
        let trigger_count = events.replace_all_triggers_from_scripts(&scripts);
        Ok(ReloadReport { trigger_count, errors, scripts })
    }
}

} // verus!
