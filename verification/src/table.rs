//! Name-keyed tables of plain 64-bit values.
//!
//! Several components keep a `name -> value` table: the resolved-address
//! cache, the capability registry and the singleton directory. All of them
//! store the entries in a vector with pairwise-distinct names and are
//! specified against the finite map those entries denote.

use vstd::prelude::*;

verus! {

/// The map denoted by a list of `(name, value)` entries. A later entry for
/// the same name would win, but well-formed tables keep names distinct.
pub open spec fn table_map(entries: Seq<(String, u64)>) -> Map<Seq<char>, u64>
    decreases entries.len(),
{
    if entries.len() == 0 {
        Map::empty()
    } else {
        table_map(entries.drop_last()).insert(entries.last().0@, entries.last().1)
    }
}

/// Well-formedness: no name occurs twice.
pub open spec fn distinct_names(entries: Seq<(String, u64)>) -> bool {
    forall|i: int, j: int| 0 <= i < j < entries.len() ==> entries[i].0@ != entries[j].0@
}

/// Each entry of a well-formed table is in its map, with its own value.
pub proof fn lemma_table_map_index(entries: Seq<(String, u64)>, i: int)
    requires
        distinct_names(entries),
        0 <= i < entries.len(),
    ensures
        table_map(entries).contains_key(entries[i].0@),
        table_map(entries)[entries[i].0@] == entries[i].1,
    decreases entries.len(),
{
    if i + 1 < entries.len() {
        assert(distinct_names(entries.drop_last()));
        assert(entries.drop_last()[i] == entries[i]);
        lemma_table_map_index(entries.drop_last(), i);
    }
}

/// A name on no entry is not in the map.
pub proof fn lemma_table_map_absent(entries: Seq<(String, u64)>, name: Seq<char>)
    requires
        forall|i: int| 0 <= i < entries.len() ==> entries[i].0@ != name,
    ensures
        !table_map(entries).contains_key(name),
    decreases entries.len(),
{
    if entries.len() > 0 {
        lemma_table_map_absent(entries.drop_last(), name);
    }
}

/// Appending an entry for an absent name inserts it into the map.
pub proof fn lemma_table_map_push(entries: Seq<(String, u64)>, name: String, value: u64)
    ensures
        table_map(entries.push((name, value))) == table_map(entries).insert(name@, value),
{
    assert(entries.push((name, value)).drop_last() =~= entries);
}

/// A well-formed table's map has exactly one key per entry.
pub proof fn lemma_table_map_len(entries: Seq<(String, u64)>)
    requires
        distinct_names(entries),
    ensures
        table_map(entries).dom().finite(),
        table_map(entries).dom().len() == entries.len(),
    decreases entries.len(),
{
    if entries.len() > 0 {
        assert(distinct_names(entries.drop_last()));
        lemma_table_map_len(entries.drop_last());
        assert forall|i: int|
            0 <= i < entries.drop_last().len() implies entries.drop_last()[i].0@
            != entries.last().0@ by {
            assert(entries[i] == entries.drop_last()[i]);
        }
        lemma_table_map_absent(entries.drop_last(), entries.last().0@);
    }
}

/// Look a name up in a well-formed table.
pub fn table_lookup(entries: &Vec<(String, u64)>, name: &str) -> (r: Option<u64>)
    requires
        distinct_names(entries@),
    ensures
        match r {
            Option::Some(v) => table_map(entries@).contains_key(name@) && table_map(entries@)[name@]
                == v,
            Option::None => !table_map(entries@).contains_key(name@),
        },
{
    let key: String = name.to_owned();
    let n = entries.len();
    let mut i: usize = 0;
    while i < n
        invariant
            n == entries@.len(),
            i <= n,
            key@ == name@,
            distinct_names(entries@),
            forall|j: int| 0 <= j < i ==> entries@[j].0@ != name@,
        decreases n - i,
    {
        if entries[i].0 == key {
            proof {
                lemma_table_map_index(entries@, i as int);
            }
            return Some(entries[i].1);
        }
        i += 1;
    }
    proof {
        lemma_table_map_absent(entries@, name@);
    }
    None
}

/// Bind a name to a value in a well-formed table. An existing entry for the
/// name is overwritten: the last writer wins.
pub fn table_insert(entries: &mut Vec<(String, u64)>, name: &str, value: u64)
    requires
        distinct_names(old(entries)@),
    ensures
        distinct_names(final(entries)@),
        table_map(final(entries)@) == table_map(old(entries)@).insert(name@, value),
        table_map(final(entries)@).dom() == table_map(old(entries)@).dom().insert(name@),
{
    let key: String = name.to_owned();
    let n = entries.len();
    let mut i: usize = 0;
    while i < n
        invariant
            n == entries@.len(),
            i <= n,
            key@ == name@,
            distinct_names(entries@),
            entries@ == old(entries)@,
            forall|j: int| 0 <= j < i ==> entries@[j].0@ != name@,
        decreases n - i,
    {
        if entries[i].0 == key {
            let ghost before = entries@;
            entries.set(i, (key, value));
            proof {
                lemma_table_update(before, i as int, key, value);
            }
            return ;
        }
        i += 1;
    }
    let ghost before = entries@;
    entries.push((key, value));
    proof {
        lemma_table_map_push(before, key, value);
        lemma_table_map_absent(before, name@);
        assert(table_map(final(entries)@).dom() =~= table_map(old(entries)@).dom().insert(name@));
    }
}

/// Overwriting entry `i` with an equally named entry updates the map at that
/// name and leaves the key set unchanged but for that name.
proof fn lemma_table_update(entries: Seq<(String, u64)>, i: int, name: String, value: u64)
    requires
        distinct_names(entries),
        0 <= i < entries.len(),
        name@ == entries[i].0@,
    ensures
        distinct_names(entries.update(i, (name, value))),
        table_map(entries.update(i, (name, value))) == table_map(entries).insert(name@, value),
        table_map(entries.update(i, (name, value))).dom() == table_map(entries).dom().insert(
            name@,
        ),
    decreases entries.len(),
{
    let updated = entries.update(i, (name, value));
    assert(distinct_names(updated));
    if i + 1 == entries.len() {
        assert(updated.drop_last() =~= entries.drop_last());
        assert(table_map(updated) =~= table_map(entries).insert(name@, value));
    } else {
        assert(distinct_names(entries.drop_last()));
        assert(entries.drop_last()[i] == entries[i]);
        lemma_table_update(entries.drop_last(), i, name, value);
        assert(updated.drop_last() =~= entries.drop_last().update(i, (name, value)));
        assert(updated.last() == entries.last());
        lemma_table_map_absent_of_distinct(entries, i);
        assert(table_map(updated) =~= table_map(entries).insert(name@, value));
    }
    assert(table_map(updated).dom() =~= table_map(entries).dom().insert(name@));
}

/// In a well-formed table, the name of entry `i` is distinct from the last
/// entry's name whenever `i` is not the last entry.
proof fn lemma_table_map_absent_of_distinct(entries: Seq<(String, u64)>, i: int)
    requires
        distinct_names(entries),
        0 <= i < entries.len() - 1,
    ensures
        entries[i].0@ != entries.last().0@,
{
}

} // verus!
