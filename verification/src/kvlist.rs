//! String-keyed association lists with a `Map` view: the storage behind the
//! command registry, the permission map and the script-side registries.
//! Later entries shadow earlier ones, so appending is map insertion; lookups
//! scan backward and removal drops every entry of a key.

use vstd::prelude::*;

use crate::strutil::str_eq;

verus! {

/// The map an entry list denotes: later entries shadow earlier ones.
pub open spec fn map_of<V>(entries: Seq<(String, V)>) -> Map<Seq<char>, V>
    decreases entries.len(),
{
    if entries.len() == 0 {
        Map::empty()
    } else {
        map_of(entries.drop_last()).insert(entries.last().0@, entries.last().1)
    }
}

/// If no entry at or after `j` has key `k`, the suffix does not affect `k`.
pub proof fn lemma_map_of_absent_suffix<V>(entries: Seq<(String, V)>, j: int, k: Seq<char>)
    requires
        0 <= j <= entries.len(),
        forall|x: int| j <= x < entries.len() ==> (#[trigger] entries[x].0)@ != k,
    ensures
        map_of(entries).contains_key(k) == map_of(entries.take(j)).contains_key(k),
        map_of(entries).contains_key(k) ==> map_of(entries)[k] == map_of(entries.take(j))[k],
    decreases entries.len() - j,
{
    if j < entries.len() {
        lemma_map_of_absent_suffix(entries, j + 1, k);
        assert(entries.take(j + 1).drop_last() =~= entries.take(j));
        assert(entries.take(j + 1).last() == entries[j]);
    } else {
        assert(entries.take(j) =~= entries);
    }
}

/// A key is in the map exactly when some entry has it.
pub proof fn lemma_map_of_contains<V>(entries: Seq<(String, V)>, k: Seq<char>)
    ensures
        map_of(entries).contains_key(k) <==> exists|x: int|
            0 <= x < entries.len() && (#[trigger] entries[x].0)@ == k,
    decreases entries.len(),
{
    if entries.len() > 0 {
        lemma_map_of_contains(entries.drop_last(), k);
        assert(forall|x: int|
            0 <= x < entries.len() - 1 ==> #[trigger] entries.drop_last()[x] == entries[x]);
        if entries.last().0@ == k {
            assert((entries[entries.len() - 1].0)@ == k);
        } else if map_of(entries).contains_key(k) {
            let x = choose|x: int|
                0 <= x < entries.drop_last().len() && (#[trigger] entries.drop_last()[x].0)@ == k;
            assert((entries[x].0)@ == k);
        } else if exists|x: int| 0 <= x < entries.len() && (#[trigger] entries[x].0)@ == k {
            let x = choose|x: int| 0 <= x < entries.len() && (#[trigger] entries[x].0)@ == k;
            assert((entries.drop_last()[x].0)@ == k);
        }
    }
}

/// A present key's value is some entry's value.
pub proof fn lemma_map_of_value<V>(entries: Seq<(String, V)>, k: Seq<char>)
    requires
        map_of(entries).contains_key(k),
    ensures
        exists|x: int|
            0 <= x < entries.len() && (#[trigger] entries[x].0)@ == k && entries[x].1 == map_of(
                entries,
            )[k],
    decreases entries.len(),
{
    if entries.len() > 0 {
        if entries.last().0@ == k {
            assert((entries[entries.len() - 1].0)@ == k && entries[entries.len() - 1].1 == map_of(
                entries,
            )[k]);
        } else {
            lemma_map_of_value(entries.drop_last(), k);
            let x = choose|x: int|
                0 <= x < entries.drop_last().len() && (#[trigger] entries.drop_last()[x].0)@ == k
                    && entries.drop_last()[x].1 == map_of(entries.drop_last())[k];
            assert((entries[x].0)@ == k && entries[x].1 == map_of(entries)[k]);
        }
    }
}

/// Looks a key up: the value of the latest entry holding it, as the map view
/// says.
pub fn kv_get<'a, V>(entries: &'a Vec<(String, V)>, key: &str) -> (r: Option<&'a V>)
    ensures
        match r {
            Some(v) => map_of(entries@).contains_key(key@) && *v == map_of(entries@)[key@],
            None => !map_of(entries@).contains_key(key@),
        },
{
    let mut j: usize = entries.len();
    while j > 0
        invariant
            j <= entries@.len(),
            forall|x: int| j <= x < entries@.len() ==> (#[trigger] entries@[x].0)@ != key@,
        decreases j,
    {
        j = j - 1;
        if str_eq(entries[j].0.as_str(), key) {
            proof {
                lemma_map_of_absent_suffix(entries@, j + 1, key@);
                assert(entries@.take(j + 1).drop_last() =~= entries@.take(j as int));
                assert(entries@.take(j + 1).last() == entries@[j as int]);
            }
            return Some(&entries[j].1);
        }
    }
    proof {
        lemma_map_of_absent_suffix(entries@, 0, key@);
        assert(entries@.take(0) =~= Seq::<(String, V)>::empty());
    }
    None
}

/// Whether any entry holds the key.
pub fn kv_contains<V>(entries: &Vec<(String, V)>, key: &str) -> (r: bool)
    ensures
        r == map_of(entries@).contains_key(key@),
{
    match kv_get(entries, key) {
        Some(_) => true,
        None => false,
    }
}

/// Appends an entry: map insertion.
pub fn kv_insert<V>(entries: &mut Vec<(String, V)>, key: String, value: V)
    ensures
        map_of(final(entries)@) == map_of(old(entries)@).insert(key@, value),
        final(entries)@ == old(entries)@.push((key, value)),
{
    let ghost k = key@;
    entries.push((key, value));
    proof {
        assert(entries@.drop_last() =~= old(entries)@);
    }
}

/// Drops every entry of a key: map removal.
pub fn kv_remove<V>(entries: Vec<(String, V)>, key: &str) -> (r: Vec<(String, V)>)
    ensures
        map_of(r@) == map_of(entries@).remove(key@),
        forall|x: int| 0 <= x < r@.len() ==> (#[trigger] r@[x].0)@ != key@,
{
    let mut kept: Vec<(String, V)> = Vec::new();
    let mut src = entries;
    let ghost all = src@;
    let n = src.len();
    let mut j: usize = 0;
    proof {
        assert(all.take(0) =~= Seq::<(String, V)>::empty());
        assert(map_of(kept@) =~= map_of(all.take(0)).remove(key@));
    }
    while j < n
        invariant
            n == all.len(),
            j <= n,
            src@ == all.skip(j as int),
            map_of(kept@) == map_of(all.take(j as int)).remove(key@),
            forall|x: int| 0 <= x < kept@.len() ==> (#[trigger] kept@[x].0)@ != key@,
        decreases n - j,
    {
        let entry = src.remove(0);
        proof {
            assert(all.skip(j as int)[0] == all[j as int]);
            assert(all.skip(j as int).skip(1) =~= all.skip(j + 1));
            assert(all.take(j + 1).drop_last() =~= all.take(j as int));
            assert(all.take(j + 1).last() == all[j as int]);
        }
        let keep = !str_eq(entry.0.as_str(), key);
        if keep {
            let ghost pre = kept@;
            kept.push(entry);
            proof {
                assert(kept@.drop_last() =~= pre);
                assert(map_of(kept@) =~= map_of(all.take(j + 1)).remove(key@));
            }
        } else {
            proof {
                assert(map_of(kept@) =~= map_of(all.take(j + 1)).remove(key@));
            }
        }
        j = j + 1;
    }
    proof {
        assert(all.take(n as int) =~= all);
    }
    kept
}

} // verus!
