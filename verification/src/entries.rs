//! Lists of keyed entries, and the maps that they make.

use vstd::prelude::*;

verus! {

/// The map that a list of entries makes: a later entry replaces an earlier one of its key.
pub open spec fn entry_map<V>(entries: Seq<(Seq<char>, V)>) -> Map<Seq<char>, V>
    decreases entries.len(),
{
    if entries.len() == 0 {
        Map::empty()
    } else {
        entry_map(entries.drop_last()).insert(entries.last().0, entries.last().1)
    }
}

/// The last entry of a key is what the map holds under it.
pub proof fn lemma_entry_map_last<V>(entries: Seq<(Seq<char>, V)>, i: int)
    requires
        0 <= i < entries.len(),
        forall|j: int| i < j < entries.len() ==> (#[trigger] entries[j]).0 != entries[i].0,
    ensures
        entry_map(entries).contains_key(entries[i].0),
        entry_map(entries)[entries[i].0] == entries[i].1,
    decreases entries.len(),
{
    if i < entries.len() - 1 {
        let front = entries.drop_last();
        assert(front[i] == entries[i]);
        assert(entries[entries.len() - 1].0 != entries[i].0);
        assert forall|j: int| i < j < front.len() implies (#[trigger] front[j]).0 != front[i].0 by {
            assert(entries[j].0 != entries[i].0);
        }
        lemma_entry_map_last(front, i);
    }
}

/// The map holds nothing under a key that no entry has, and it is finite.
pub proof fn lemma_entry_map_keys<V>(entries: Seq<(Seq<char>, V)>)
    ensures
        entry_map(entries).dom().finite(),
        forall|key: Seq<char>| #[trigger]
            entry_map(entries).contains_key(key) ==> exists|i: int|
                0 <= i < entries.len() && (#[trigger] entries[i]).0 == key,
    decreases entries.len(),
{
    if entries.len() > 0 {
        let front = entries.drop_last();
        lemma_entry_map_keys(front);
        assert forall|key: Seq<char>| #[trigger] entry_map(entries).contains_key(key) implies exists|
            i: int,
        | 0 <= i < entries.len() && (#[trigger] entries[i]).0 == key by {
            if key == entries.last().0 {
                assert(entries[entries.len() - 1].0 == key);
            } else {
                assert(entry_map(front).contains_key(key));
                let i = choose|i: int| 0 <= i < front.len() && (#[trigger] front[i]).0 == key;
                assert(entries[i].0 == key);
            }
        }
    }
}

/// Replacing the value of a key that occurs once is inserting it.
pub proof fn lemma_entry_map_replace<V>(
    entries: Seq<(Seq<char>, V)>,
    at: int,
    key: Seq<char>,
    value: V,
)
    requires
        0 <= at < entries.len(),
        entries[at].0 == key,
        forall|j: int| 0 <= j < entries.len() && j != at ==> (#[trigger] entries[j]).0 != key,
    ensures
        entry_map(entries.update(at, (key, value))) == entry_map(entries).insert(key, value),
    decreases entries.len(),
{
    let changed = entries.update(at, (key, value));
    let front = entries.drop_last();
    if at == entries.len() - 1 {
        assert(changed.drop_last() =~= front);
        assert(entry_map(changed) =~= entry_map(entries).insert(key, value));
    } else {
        assert(changed.drop_last() =~= front.update(at, (key, value)));
        assert forall|j: int| 0 <= j < front.len() && j != at implies (#[trigger] front[j]).0
            != key by {
            assert(entries[j].0 != key);
        }
        lemma_entry_map_replace(front, at, key, value);
        assert(entries[entries.len() - 1].0 != key);
        assert(entry_map(changed) =~= entry_map(entries).insert(key, value));
    }
}

} // verus!
