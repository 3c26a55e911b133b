//! A map from text to values.

use vstd::prelude::*;

use crate::text::str_eq;

verus! {

/// The map that a list of entries stands for; no key occurs twice in it.
pub open spec fn entries_map<V>(entries: Seq<(String, V)>) -> Map<Seq<char>, V>
    decreases entries.len(),
{
    if entries.len() == 0 {
        Map::empty()
    } else {
        entries_map(entries.drop_last()).insert(entries.last().0@, entries.last().1)
    }
}

/// Whether every key occurs once.
pub open spec fn distinct_keys<V>(entries: Seq<(String, V)>) -> bool {
    forall|i: int, j: int|
        0 <= i < j < entries.len() ==> (#[trigger] entries[i]).0@ != (#[trigger] entries[j]).0@
}

/// A map whose keys are strings. Its view is a mathematical map; it also has a
/// fixed order in which its entries are listed.
#[derive(Debug)]
pub struct Table<V> {
    entries: Vec<(String, V)>,
}

impl<V> View for Table<V> {
    type V = Map<Seq<char>, V>;

    closed spec fn view(&self) -> Map<Seq<char>, V> {
        entries_map(self.entries@)
    }
}

proof fn lemma_entries_map<V>(entries: Seq<(String, V)>)
    requires
        distinct_keys(entries),
    ensures
        forall|i: int|
            0 <= i < entries.len() ==> #[trigger] entries_map(entries).contains_key(
                entries[i].0@,
            ) && entries_map(entries)[entries[i].0@] == entries[i].1,
        forall|k: Seq<char>| #[trigger]
            entries_map(entries).contains_key(k) ==> exists|i: int|
                0 <= i < entries.len() && (#[trigger] entries[i]).0@ == k,
        entries_map(entries).dom().finite(),
        entries_map(entries).len() == entries.len(),
    decreases entries.len(),
{
    if entries.len() > 0 {
        let front = entries.drop_last();
        lemma_entries_map(front);
        assert(!entries_map(front).contains_key(entries.last().0@)) by {
            if entries_map(front).contains_key(entries.last().0@) {
                let i = choose|i: int|
                    0 <= i < front.len() && (#[trigger] front[i]).0@ == entries.last().0@;
                assert(entries[i].0@ != entries[entries.len() - 1].0@);
            }
        }
        assert forall|i: int| 0 <= i < entries.len() implies #[trigger] entries_map(
            entries,
        ).contains_key(entries[i].0@) && entries_map(entries)[entries[i].0@] == entries[i].1 by {
            if i < front.len() {
                assert(front[i] == entries[i]);
                assert(entries_map(front).contains_key(front[i].0@));
                assert(entries[i].0@ != entries[entries.len() - 1].0@);
            }
        }
        assert forall|k: Seq<char>| #[trigger]
            entries_map(entries).contains_key(k) implies exists|i: int|
            0 <= i < entries.len() && (#[trigger] entries[i]).0@ == k by {
            if k == entries.last().0@ {
                assert(entries[entries.len() - 1].0@ == k);
            } else {
                let i = choose|i: int| 0 <= i < front.len() && (#[trigger] front[i]).0@ == k;
                assert(entries[i].0@ == k);
            }
        }
    }
}

proof fn lemma_entry_at<V>(entries: Seq<(String, V)>, i: int)
    requires
        distinct_keys(entries),
        0 <= i < entries.len(),
    ensures
        entries_map(entries).contains_key(entries[i].0@),
        entries_map(entries)[entries[i].0@] == entries[i].1,
{
    lemma_entries_map(entries);
    assert(entries_map(entries).contains_key(entries[i].0@));
}

proof fn lemma_update<V>(entries: Seq<(String, V)>, i: int, key: String, value: V)
    requires
        distinct_keys(entries),
        0 <= i < entries.len(),
        entries[i].0@ == key@,
    ensures
        distinct_keys(entries.update(i, (key, value))),
        entries_map(entries.update(i, (key, value))) == entries_map(entries).insert(key@, value),
{
    let updated = entries.update(i, (key, value));
    assert(distinct_keys(updated));
    lemma_entries_map(entries);
    lemma_entries_map(updated);
    let left = entries_map(updated);
    let right = entries_map(entries).insert(key@, value);
    assert forall|k: Seq<char>| left.contains_key(k) implies right.contains_key(k) && left[k]
        == right[k] by {
        let j = choose|j: int| 0 <= j < updated.len() && (#[trigger] updated[j]).0@ == k;
        lemma_entry_at(updated, j);
        lemma_entry_at(entries, j);
    }
    assert forall|k: Seq<char>| right.contains_key(k) implies left.contains_key(k) by {
        if k == key@ {
            lemma_entry_at(updated, i);
        } else {
            let j = choose|j: int| 0 <= j < entries.len() && (#[trigger] entries[j]).0@ == k;
            lemma_entry_at(updated, j);
        }
    }
    assert(left =~= right);
}

proof fn lemma_remove<V>(entries: Seq<(String, V)>, i: int)
    requires
        distinct_keys(entries),
        0 <= i < entries.len(),
    ensures
        distinct_keys(entries.remove(i)),
        entries_map(entries.remove(i)) == entries_map(entries).remove(entries[i].0@),
{
    let key = entries[i].0@;
    let rest = entries.remove(i);
    assert forall|j: int, k: int| 0 <= j < k < rest.len() implies (#[trigger] rest[j]).0@ != (
    #[trigger] rest[k]).0@ by {
        let before = if j < i { j } else { j + 1 };
        let after = if k < i { k } else { k + 1 };
        assert(entries[before].0@ != entries[after].0@);
    }
    lemma_entries_map(entries);
    lemma_entries_map(rest);
    let left = entries_map(rest);
    let right = entries_map(entries).remove(key);
    assert forall|k: Seq<char>| left.contains_key(k) implies right.contains_key(k) && left[k]
        == right[k] by {
        let j = choose|j: int| 0 <= j < rest.len() && (#[trigger] rest[j]).0@ == k;
        let before = if j < i { j } else { j + 1 };
        lemma_entry_at(rest, j);
        lemma_entry_at(entries, before);
        assert(before < i ==> entries[before].0@ != entries[i].0@);
        assert(i < before ==> entries[i].0@ != entries[before].0@);
    }
    assert forall|k: Seq<char>| right.contains_key(k) implies left.contains_key(k) by {
        let j = choose|j: int| 0 <= j < entries.len() && (#[trigger] entries[j]).0@ == k;
        lemma_entry_at(rest, if j < i { j } else { j - 1 });
    }
    assert(left =~= right);
}

impl<V> Table<V> {
    /// What every table made by this module satisfies.
    pub closed spec fn wf(&self) -> bool {
        distinct_keys(self.entries@)
    }

    /// The entries, in the order in which the table lists them.
    pub closed spec fn listing(&self) -> Seq<(String, V)> {
        self.entries@
    }

    /// The listing and the map hold the same entries, each once.
    pub proof fn lemma_listing(&self)
        requires
            self.wf(),
        ensures
            distinct_keys(self.listing()),
            self@ == entries_map(self.listing()),
            forall|i: int|
                0 <= i < self.listing().len() ==> #[trigger] self@.contains_key(
                    self.listing()[i].0@,
                ) && self@[self.listing()[i].0@] == self.listing()[i].1,
            forall|k: Seq<char>| #[trigger]
                self@.contains_key(k) ==> exists|i: int|
                    0 <= i < self.listing().len() && (#[trigger] self.listing()[i]).0@ == k,
            self@.dom().finite(),
            self@.len() == self.listing().len(),
    {
        lemma_entries_map(self.entries@);
    }

    /// Creates a table without entries.
    pub fn new() -> (res: Self)
        ensures
            res.wf(),
            res@ == Map::<Seq<char>, V>::empty(),
            res.listing() == Seq::<(String, V)>::empty(),
    {
        Table { entries: Vec::new() }
    }

    /// The number of entries.
    pub fn len(&self) -> (res: usize)
        requires
            self.wf(),
        ensures
            res == self@.len(),
            res == self.listing().len(),
    {
        proof {
            self.lemma_listing();
        }
        self.entries.len()
    }

    /// The entry at position `i` of the listing.
    pub fn entry(&self, i: usize) -> (res: &(String, V))
        requires
            i < self.listing().len(),
        ensures
            *res == self.listing()[i as int],
    {
        &self.entries[i]
    }

    fn position(&self, key: &str) -> (res: Option<usize>)
        requires
            self.wf(),
        ensures
            match res {
                Some(i) => i < self.entries@.len() && self.entries@[i as int].0@ == key@,
                None => !self@.contains_key(key@),
            },
    {
        let mut i: usize = 0;
        while i < self.entries.len()
            invariant
                i <= self.entries@.len(),
                forall|j: int| 0 <= j < i ==> (#[trigger] self.entries@[j]).0@ != key@,
            decreases self.entries.len() - i,
        {
            if str_eq(self.entries[i].0.as_str(), key) {
                return Some(i);
            }
            i += 1;
        }
        proof {
            lemma_entries_map(self.entries@);
        }
        None
    }

    /// Whether `key` has a value.
    pub fn contains_key(&self, key: &str) -> (res: bool)
        requires
            self.wf(),
        ensures
            res == self@.contains_key(key@),
    {
        match self.position(key) {
            Some(i) => {
                proof {
                    lemma_entry_at(self.entries@, i as int);
                }
                true
            },
            None => false,
        }
    }

    /// The value of `key`.
    pub fn get(&self, key: &str) -> (res: Option<&V>)
        requires
            self.wf(),
        ensures
            match res {
                Some(v) => self@.contains_key(key@) && *v == self@[key@],
                None => !self@.contains_key(key@),
            },
    {
        match self.position(key) {
            Some(i) => {
                proof {
                    lemma_entry_at(self.entries@, i as int);
                }
                Some(&self.entries[i].1)
            },
            None => None,
        }
    }

    /// The value of `key`, to be changed in place.
    pub fn get_mut(&mut self, key: &str) -> (res: Option<&mut V>)
        requires
            old(self).wf(),
        ensures
            final(self).wf(),
            match res {
                Some(v) => {
                    &&& old(self)@.contains_key(key@)
                    &&& *v == old(self)@[key@]
                    &&& final(self)@ == old(self)@.insert(key@, *final(v))
                    &&& exists|i: int|
                        #![trigger old(self).listing()[i]]
                        {
                            &&& 0 <= i < old(self).listing().len()
                            &&& old(self).listing()[i].0@ == key@
                            &&& final(self).listing() == old(self).listing().update(
                                i,
                                (old(self).listing()[i].0, *final(v)),
                            )
                        }
                },
                None => !old(self)@.contains_key(key@) && *final(self) == *old(self),
            },
    {
        match self.position(key) {
            Some(i) => {
                proof {
                    let entries = self.entries@;
                    lemma_entry_at(entries, i as int);
                    assert(self.listing()[i as int].0@ == key@);
                    assert forall|v: V|
                        {
                            let updated = #[trigger] entries.update(
                                i as int,
                                (entries[i as int].0, v),
                            );
                            &&& distinct_keys(updated)
                            &&& entries_map(updated) == entries_map(entries).insert(key@, v)
                        } by {
                        lemma_update(entries, i as int, entries[i as int].0, v);
                    }
                }
                Some(&mut self.entries[i].1)
            },
            None => None,
        }
    }

    /// Gives `key` the value `value`, in place of the one it had. A new key is
    /// listed last.
    pub fn insert(&mut self, key: String, value: V)
        requires
            old(self).wf(),
        ensures
            final(self).wf(),
            final(self)@ == old(self)@.insert(key@, value),
            if old(self)@.contains_key(key@) {
                exists|i: int|
                    #![trigger old(self).listing()[i]]
                    {
                        &&& 0 <= i < old(self).listing().len()
                        &&& old(self).listing()[i].0@ == key@
                        &&& final(self).listing() == old(self).listing().update(i, (key, value))
                    }
            } else {
                final(self).listing() == old(self).listing().push((key, value))
            },
    {
        match self.position(key.as_str()) {
            Some(i) => {
                proof {
                    lemma_entry_at(self.entries@, i as int);
                    assert(self.listing()[i as int].0@ == key@);
                    lemma_update(self.entries@, i as int, key, value);
                }
                self.entries[i] = (key, value);
            },
            None => {
                let ghost before = self.entries@;
                self.entries.push((key, value));
                proof {
                    assert forall|j: int| 0 <= j < before.len() implies (#[trigger] before[j]).0@
                        != key@ by {
                        lemma_entry_at(before, j);
                    }
                    assert(self.entries@.drop_last() =~= before);
                }
            },
        }
    }

    /// Removes the entry of `key`, if there is one, and gives its value. The other
    /// entries are listed as before.
    pub fn remove(&mut self, key: &str) -> (res: Option<V>)
        requires
            old(self).wf(),
        ensures
            final(self).wf(),
            final(self)@ == old(self)@.remove(key@),
            match res {
                Some(v) => {
                    &&& old(self)@.contains_key(key@)
                    &&& v == old(self)@[key@]
                    &&& exists|i: int|
                        #![trigger old(self).listing()[i]]
                        {
                            &&& 0 <= i < old(self).listing().len()
                            &&& old(self).listing()[i].0@ == key@
                            &&& final(self).listing() == old(self).listing().remove(i)
                        }
                },
                None => !old(self)@.contains_key(key@) && *final(self) == *old(self),
            },
    {
        match self.position(key) {
            Some(i) => {
                proof {
                    lemma_entry_at(self.entries@, i as int);
                    assert(self.listing()[i as int].0@ == key@);
                    lemma_remove(self.entries@, i as int);
                }
                let entry = self.entries.remove(i);
                Some(entry.1)
            },
            None => {
                assert(self@.remove(key@) =~= self@);
                None
            },
        }
    }
}

} // verus!
