//! Laws of tables.

use vstd::prelude::*;

use crate::table::Table;

verus! {

/// A new table has no entry.
pub proof fn law_new_table<V>(res: Table<V>)
    requires
        call_ensures(Table::<V>::new, (), res),
    ensures
        res.wf(),
        res.listing().len() == 0,
        forall|k: Seq<char>| !#[trigger] res@.contains_key(k),
{
}

/// After a value was given to a key, the key has it, and every other key has what it
/// had.
pub proof fn law_insert<V>(
    table: &mut Table<V>,
    key: String,
    value: V,
    res: (),
    wanted: &str,
    found: Option<&V>,
)
    requires
        old(table).wf(),
        call_ensures(Table::<V>::insert, (table, key, value), res),
        call_ensures(Table::<V>::get, (&*final(table), wanted), found),
    ensures
        final(table).wf(),
        wanted@ == key@ ==> (found matches Some(v) && *v == value),
        wanted@ != key@ ==> (found is Some <==> old(table)@.contains_key(wanted@)),
        wanted@ != key@ && found is Some ==> *found->0 == old(table)@[wanted@],
{
}

/// After a key was removed it has no value, and every other key has what it had.
pub proof fn law_remove<V>(
    table: &mut Table<V>,
    key: &str,
    res: Option<V>,
    wanted: &str,
    found: Option<&V>,
)
    requires
        old(table).wf(),
        call_ensures(Table::<V>::remove, (table, key), res),
        call_ensures(Table::<V>::get, (&*final(table), wanted), found),
    ensures
        final(table).wf(),
        res is Some <==> old(table)@.contains_key(key@),
        res is Some ==> res->0 == old(table)@[key@],
        wanted@ == key@ ==> found is None,
        wanted@ != key@ ==> (found is Some <==> old(table)@.contains_key(wanted@)),
        wanted@ != key@ && found is Some ==> *found->0 == old(table)@[wanted@],
{
}

/// A key is found exactly if it has a value, and the number of entries is the number
/// of keys.
pub proof fn law_lookup<V>(
    table: &Table<V>,
    key: &str,
    found: Option<&V>,
    contained: bool,
    len: usize,
)
    requires
        table.wf(),
        call_ensures(Table::<V>::get, (table, key), found),
        call_ensures(Table::<V>::contains_key, (table, key), contained),
        call_ensures(Table::<V>::len, (table,), len),
    ensures
        contained == table@.contains_key(key@),
        contained == (found is Some),
        found is Some ==> *found->0 == table@[key@],
        len == table@.len(),
        len == table.listing().len(),
{
}

/// The value of a key can be changed in place: the key then has what it was changed to,
/// and every other key has what it had.
pub proof fn law_get_mut<V>(
    table: &mut Table<V>,
    key: &str,
    res: Option<&mut V>,
    other: Seq<char>,
)
    requires
        old(table).wf(),
        call_ensures(Table::<V>::get_mut, (table, key), res),
    ensures
        final(table).wf(),
        res is Some <==> old(table)@.contains_key(key@),
        res matches Some(v) ==> {
            &&& *v == old(table)@[key@]
            &&& final(table)@.contains_key(key@)
            &&& final(table)@[key@] == *final(v)
        },
        other != key@ || res is None ==> {
            &&& final(table)@.contains_key(other) <==> old(table)@.contains_key(other)
            &&& old(table)@.contains_key(other) ==> final(table)@[other] == old(table)@[other]
        },
{
}

/// The listing holds every entry of the map exactly once, and nothing else.
pub proof fn law_listing<V>(table: &Table<V>, key: Seq<char>)
    requires
        table.wf(),
    ensures
        table@.contains_key(key) <==> exists|i: int|
            0 <= i < table.listing().len() && (#[trigger] table.listing()[i]).0@ == key,
        forall|i: int|
            0 <= i < table.listing().len() && (#[trigger] table.listing()[i]).0@ == key
                ==> table@[key] == table.listing()[i].1,
        forall|i: int, j: int|
            0 <= i < j < table.listing().len() ==> (#[trigger] table.listing()[i]).0@ != (
            #[trigger] table.listing()[j]).0@,
{
    table.lemma_listing();
    assert forall|i: int|
        0 <= i < table.listing().len() && (#[trigger] table.listing()[i]).0@ == key implies
        table@.contains_key(key) && table@[key] == table.listing()[i].1 by {
        assert(table@.contains_key(table.listing()[i].0@));
    }
}

/// The entries are handed out as they are listed.
pub proof fn law_entry<V>(table: &Table<V>, i: usize, res: &(String, V))
    requires
        i < table.listing().len(),
        call_ensures(Table::<V>::entry, (table, i), res),
    ensures
        *res == table.listing()[i as int],
{
}

} // verus!
