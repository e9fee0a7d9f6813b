//! The global variable store: a name-to-value map with map semantics, plus
//! the CSV escaping used when the store is persisted. Reading and writing
//! the file itself is the host's concern.

use vstd::prelude::*;

use crate::kvlist::{kv_contains, kv_get, kv_insert, kv_remove, map_of};
use crate::strutil::str_to_chars;

verus! {

/// One stored value. A number is carried as the bit pattern of its IEEE-754
/// double, so the store itself holds only plain values.
#[derive(Debug)]
pub enum VarValue {
    /// A text value.
    Str(String),
    /// A numeric value, as the bits of a 64-bit float.
    Num(u64),
    /// A boolean value.
    Bool(bool),
    /// A list of values.
    List(Vec<VarValue>),
    /// The absent value.
    Null,
}

/// The global variable store.
pub struct GlobalVars {
    /// Key-to-value entries; later entries shadow earlier ones.
    pub entries: Vec<(String, VarValue)>,
}

impl GlobalVars {
    /// The map the store denotes.
    pub open spec fn spec_map(self) -> Map<Seq<char>, VarValue> {
        map_of(self.entries@)
    }

    /// An empty store.
    pub fn new() -> (r: GlobalVars)
        ensures
            r.spec_map() == Map::<Seq<char>, VarValue>::empty(),
    {
        GlobalVars { entries: Vec::new() }
    }

    /// Reads a variable.
    pub fn get_global(&self, key: &str) -> (r: Option<&VarValue>)
        ensures
            match r {
                Some(v) => self.spec_map().contains_key(key@) && *v == self.spec_map()[key@],
                None => !self.spec_map().contains_key(key@),
            },
    {
        kv_get(&self.entries, key)
    }

    /// Writes a variable.
    pub fn set_global(&mut self, key: &str, value: VarValue)
        ensures
            final(self).spec_map() == old(self).spec_map().insert(key@, value),
    {
        kv_insert(&mut self.entries, String::from_str(key), value);
    }

    /// Deletes a variable; deleting an absent key changes nothing.
    pub fn del_global(&mut self, key: &str)
        ensures
            final(self).spec_map() == old(self).spec_map().remove(key@),
    {
        let mut entries: Vec<(String, VarValue)> = Vec::new();
        core::mem::swap(&mut entries, &mut self.entries);
        self.entries = kv_remove(entries, key);
    }

    /// Whether a variable exists.
    pub fn has_global(&self, key: &str) -> (r: bool)
        ensures
            r == self.spec_map().contains_key(key@),
    {
        kv_contains(&self.entries, key)
    }
}

/// Whether a CSV field needs quoting: it holds a comma, a quote or a
/// newline.
pub open spec fn spec_csv_special(s: Seq<char>) -> bool {
    exists|i: int| 0 <= i < s.len() && ((#[trigger] s[i]) == ',' || s[i] == '"' || s[i] == '\n')
}

/// A field's characters with every quote doubled.
pub open spec fn spec_double_quotes(s: Seq<char>) -> Seq<char>
    decreases s.len(),
{
    if s.len() == 0 {
        Seq::empty()
    } else {
        spec_double_quotes(s.drop_last()) + (if s.last() == '"' {
            seq!['"', '"']
        } else {
            seq![s.last()]
        })
    }
}

/// One escaped CSV field: quoted with inner quotes doubled when the field
/// holds a comma, a quote or a newline; the field itself otherwise.
pub open spec fn spec_csv_escape(s: Seq<char>) -> Seq<char> {
    if spec_csv_special(s) {
        seq!['"'] + spec_double_quotes(s) + seq!['"']
    } else {
        s
    }
}

/// Escapes one CSV field.
pub fn csv_escape(s: &str) -> (r: String)
    ensures
        r@ == spec_csv_escape(s@),
{
    let chars = str_to_chars(s);
    let mut needs = false;
    let mut i: usize = 0;
    while i < chars.len()
        invariant
            chars@ == s@,
            i <= chars@.len(),
            needs == exists|x: int|
                0 <= x < i && ((#[trigger] chars@[x]) == ',' || chars@[x] == '"' || chars@[x]
                    == '\n'),
        decreases chars@.len() - i,
    {
        let c = chars[i];
        if c == ',' || c == '"' || c == '\n' {
            needs = true;
        }
        i = i + 1;
    }
    proof {
        assert(needs == spec_csv_special(s@));
    }
    if !needs {
        let r = crate::strutil::chars_to_string(&chars);
        return r;
    }
    let mut out: Vec<char> = Vec::new();
    out.push('"');
    let mut k: usize = 0;
    proof {
        assert(chars@.take(0) =~= Seq::<char>::empty());
        assert(out@ =~= seq!['"'] + spec_double_quotes(chars@.take(0)));
    }
    while k < chars.len()
        invariant
            chars@ == s@,
            k <= chars@.len(),
            out@ == seq!['"'] + spec_double_quotes(chars@.take(k as int)),
        decreases chars@.len() - k,
    {
        proof {
            assert(chars@.take(k + 1).drop_last() =~= chars@.take(k as int));
            assert(chars@.take(k + 1).last() == chars@[k as int]);
        }
        let c = chars[k];
        if c == '"' {
            out.push('"');
            out.push('"');
        } else {
            out.push(c);
        }
        k = k + 1;
        proof {
            assert(out@ =~= seq!['"'] + spec_double_quotes(chars@.take(k as int)));
        }
    }
    out.push('"');
    proof {
        assert(chars@.take(chars@.len() as int) =~= chars@);
        assert(out@ =~= seq!['"'] + spec_double_quotes(s@) + seq!['"']);
    }
    crate::strutil::chars_to_string(&out)
}

/// The fields the CSV splitter yields from position `i` on, given the
/// in-quotes flag, the field built so far and the fields already finished:
/// a doubled quote inside quotes is one literal quote, a lone quote toggles
/// the flag, and an unquoted comma ends a field.
pub open spec fn spec_csv_fields(
    s: Seq<char>,
    i: int,
    in_quotes: bool,
    cur: Seq<char>,
    out: Seq<Seq<char>>,
) -> Seq<Seq<char>>
    decreases s.len() - i
        when 0 <= i <= s.len()
{
    if i >= s.len() {
        out.push(cur)
    } else {
        let c = s[i];
        if c == '"' {
            if in_quotes && i + 1 < s.len() && s[i + 1] == '"' {
                spec_csv_fields(s, i + 2, in_quotes, cur.push('"'), out)
            } else {
                spec_csv_fields(s, i + 1, !in_quotes, cur, out)
            }
        } else if c == ',' && !in_quotes {
            spec_csv_fields(s, i + 1, in_quotes, Seq::empty(), out.push(cur))
        } else {
            spec_csv_fields(s, i + 1, in_quotes, cur.push(c), out)
        }
    }
}

/// The fields of one CSV line.
pub open spec fn spec_parse_csv(s: Seq<char>) -> Seq<Seq<char>> {
    spec_csv_fields(s, 0, false, Seq::empty(), Seq::empty())
}

/// Splits one CSV line into fields, honoring quoted fields with doubled
/// inner quotes; there is always at least one field.
pub fn parse_csv_line(line: &str) -> (r: Vec<String>)
    ensures
        r.deep_view() == spec_parse_csv(line@),
        r@.len() >= 1,
{
    let chars = str_to_chars(line);
    let mut out: Vec<String> = Vec::new();
    let ghost mut gout: Seq<Seq<char>> = Seq::empty();
    let mut cur: Vec<char> = Vec::new();
    let mut in_quotes = false;
    let mut i: usize = 0;
    let n = chars.len();
    proof {
        assert(out.deep_view() =~~= Seq::<Seq<char>>::empty());
    }
    while i < n
        invariant
            n == chars@.len(),
            chars@ == line@,
            i <= n,
            out.deep_view() == gout,
            spec_csv_fields(line@, i as int, in_quotes, cur@, gout) == spec_parse_csv(line@),
        decreases n - i,
    {
        let c = chars[i];
        if c == '"' {
            if in_quotes && i + 1 < n && chars[i + 1] == '"' {
                cur.push('"');
                i = i + 1;
            } else {
                in_quotes = !in_quotes;
            }
        } else if c == ',' && !in_quotes {
            let done = cur;
            cur = Vec::new();
            let ghost pre = gout;
            proof {
                gout = gout.push(done@);
            }
            out.push(crate::strutil::chars_to_string(&done));
            proof {
                assert(out.deep_view() =~~= pre.push(done@));
            }
        } else {
            cur.push(c);
        }
        i = i + 1;
    }
    let ghost pre = gout;
    out.push(crate::strutil::chars_to_string(&cur));
    proof {
        assert(out.deep_view() =~~= pre.push(cur@));
    }
    out
}

} // verus!
