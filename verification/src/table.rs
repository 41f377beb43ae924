use vstd::prelude::*;

use indexmap::IndexMap;
use rand::seq::IteratorRandom;

use crate::addr::Addr;
use crate::peer::Peer;

verus! {

/// indexmap's insertion-ordered hash map.
#[verifier::external_type_specification]
#[verifier::external_body]
#[verifier::reject_recursive_types(K)]
#[verifier::reject_recursive_types(V)]
#[verifier::reject_recursive_types(S)]
pub struct ExIndexMap<K, V, S>(IndexMap<K, V, S>);

/// The entries of a peer table, in the table's order.
pub uninterp spec fn table_entries(m: IndexMap<Addr, Peer>) -> Seq<(Addr, Peer)>;

/// Whether some entry of `entries` has the key `key`.
pub open spec fn has_key(entries: Seq<(Addr, Peer)>, key: Addr) -> bool {
    exists|i: int| 0 <= i < entries.len() && #[trigger] entries[i].0 == key
}

/// The position of the entry with key `key` (meaningful where there is one).
pub open spec fn key_index(entries: Seq<(Addr, Peer)>, key: Addr) -> int {
    choose|i: int| 0 <= i < entries.len() && #[trigger] entries[i].0 == key
}

/// The entries after inserting `value` under `key`: an entry with that key
/// keeps its place and takes the new value; otherwise the pair goes last.
pub open spec fn insert_entry(entries: Seq<(Addr, Peer)>, key: Addr, value: Peer) -> Seq<(Addr, Peer)> {
    if has_key(entries, key) {
        let i = key_index(entries, key);
        entries.update(i, (entries[i].0, value))
    } else {
        entries.push((key, value))
    }
}

/// No two entries share a key.
pub open spec fn distinct_keys(entries: Seq<(Addr, Peer)>) -> bool {
    forall|i: int, j: int|
        0 <= i < j < entries.len() ==> #[trigger] entries[i].0 != #[trigger] entries[j].0
}

/// A lookup gives back what an insert wrote: in a table whose keys are
/// distinct, after inserting `value` under `key`, the entry with that key
/// holds `value`, the keys stay distinct, and every other entry is as it
/// was.
pub proof fn law_insert_then_lookup(entries: Seq<(Addr, Peer)>, key: Addr, value: Peer)
    requires
        distinct_keys(entries),
    ensures
        has_key(insert_entry(entries, key, value), key),
        distinct_keys(insert_entry(entries, key, value)),
        insert_entry(entries, key, value)[key_index(insert_entry(entries, key, value), key)].1
            == value,
        forall|i: int|
            0 <= i < entries.len() && entries[i].0 != key ==> #[trigger] insert_entry(
                entries,
                key,
                value,
            )[i] == entries[i],
{
    let r = insert_entry(entries, key, value);
    if has_key(entries, key) {
        let k = key_index(entries, key);
        assert(r[k].0 == key);
        let m = key_index(r, key);
        if m != k {
            assert(entries[m].0 == key);
        }
        assert forall|i: int, j: int| 0 <= i < j < r.len() implies #[trigger] r[i].0 != #[trigger] r[j].0 by {
            assert(r[i].0 == entries[i].0 && r[j].0 == entries[j].0);
        }
    } else {
        assert(r[entries.len() as int].0 == key);
        let m = key_index(r, key);
        if m < entries.len() {
            assert(r[m] == entries[m]);
        }
        assert forall|i: int, j: int| 0 <= i < j < r.len() implies #[trigger] r[i].0 != #[trigger] r[j].0 by {
            assert(r[i] == entries[i]);
            if j < entries.len() {
                assert(r[j] == entries[j]);
            }
        }
    }
}

/// Calls `IndexMap::new`: an empty table.
#[verifier::external_body]
pub(crate) fn table_new() -> (m: IndexMap<Addr, Peer>)
    ensures
        table_entries(m) == Seq::<(Addr, Peer)>::empty(),
{
    IndexMap::new()
}

/// Calls `IndexMap::contains_key`: whether an entry has the key.
#[verifier::external_body]
pub(crate) fn table_contains_key(m: &IndexMap<Addr, Peer>, key: &Addr) -> (b: bool)
    ensures
        b == has_key(table_entries(*m), *key),
{
    m.contains_key(key)
}

/// Calls `IndexMap::insert`. As indexmap documents it: where an entry has
/// the key, it keeps its place in the order and takes the new value, and the
/// old value is returned; otherwise the pair is inserted last and `None` is
/// returned.
#[verifier::external_body]
pub(crate) fn table_insert(m: &mut IndexMap<Addr, Peer>, key: Addr, value: Peer) -> (r: Option<Peer>)
    ensures
        table_entries(*final(m)) == insert_entry(table_entries(*old(m)), key, value),
        r == (if has_key(table_entries(*old(m)), key) {
            Some(table_entries(*old(m))[key_index(table_entries(*old(m)), key)].1)
        } else {
            None::<Peer>
        }),
{
    m.insert(key, value)
}

/// Calls `IndexMap::len`: the number of entries.
#[verifier::external_body]
pub(crate) fn table_len(m: &IndexMap<Addr, Peer>) -> (n: usize)
    ensures
        n == table_entries(*m).len(),
{
    m.len()
}

/// Calls `IndexMap::get_index`: the entry at position `i` in the order, if
/// there is one; key and value are copied out.
#[verifier::external_body]
pub(crate) fn table_get_index(m: &IndexMap<Addr, Peer>, i: usize) -> (r: Option<(Addr, Peer)>)
    ensures
        r == (if i < table_entries(*m).len() {
            Some(table_entries(*m)[i as int])
        } else {
            None::<(Addr, Peer)>
        }),
{
    m.get_index(i).map(|(k, v)| (*k, *v))
}

/// Calls rand's `IteratorRandom::choose` on the table's entries with the
/// thread's random generator, and copies out the value of the chosen entry.
/// rand documents that it returns `None` if and only if there is nothing to
/// choose from; which entry it picks is chance, so only that it is one of the
/// table's values is claimed.
#[verifier::external_body]
pub(crate) fn table_choose(m: &IndexMap<Addr, Peer>) -> (r: Option<Peer>)
    ensures
        r is None <==> table_entries(*m).len() == 0,
        r matches Some(p) ==> exists|i: int|
            0 <= i < table_entries(*m).len() && #[trigger] table_entries(*m)[i].1 == p,
{
    m.iter().choose(&mut rand::thread_rng()).map(|(_, p)| *p)
}

} // verus!
