//! A map from names to values, held in name order.

use crate::text;
use vstd::prelude::*;

verus! {

/// Values under distinct names, in the order of the names.
pub struct NameMap<V> {
    entries: Vec<(String, V)>,
}

/// The names stand in strictly ascending order.
pub open spec fn ascending(names: Seq<Seq<char>>) -> bool {
    forall|i: int, j: int|
        0 <= i < j < names.len() ==> text::precedes(#[trigger] names[i], #[trigger] names[j])
}

/// The map that holds `values[i]` under `names[i]`.
pub open spec fn paired<V>(names: Seq<Seq<char>>, values: Seq<V>) -> Map<Seq<char>, V> {
    Map::new(|n: Seq<char>| names.contains(n), |n: Seq<char>| values[names.index_of(n)])
}

impl<V> NameMap<V> {
    /// The names, in order.
    pub closed spec fn names(&self) -> Seq<Seq<char>> {
        Seq::new(self.entries@.len(), |i: int| self.entries@[i].0@)
    }

    /// The values, in the order of their names.
    pub closed spec fn values(&self) -> Seq<V> {
        Seq::new(self.entries@.len(), |i: int| self.entries@[i].1)
    }

    /// The names are in order, so no name occurs twice.
    pub open spec fn wf(&self) -> bool {
        ascending(self.names()) && self.values().len() == self.names().len()
    }
}

impl<V> View for NameMap<V> {
    type V = Map<Seq<char>, V>;

    open spec fn view(&self) -> Map<Seq<char>, V> {
        paired(self.names(), self.values())
    }
}

/// Names in strictly ascending order are distinct.
pub proof fn ascending_names_are_distinct(names: Seq<Seq<char>>)
    requires
        ascending(names),
    ensures
        names.no_duplicates(),
{
    assert forall|i: int, j: int| 0 <= i < names.len() && 0 <= j < names.len() && i != j implies
        names[i] != names[j] by {
        text::precedes_irreflexive(names[i]);
        if i < j {
            assert(text::precedes(names[i], names[j]));
        } else {
            assert(text::precedes(names[j], names[i]));
        }
    }
}

/// What stands at position `i` is what the map holds under the name there.
pub proof fn paired_at<V>(names: Seq<Seq<char>>, values: Seq<V>, i: int)
    requires
        ascending(names),
        0 <= i < names.len(),
    ensures
        paired(names, values).contains_key(names[i]),
        paired(names, values)[names[i]] == values[i],
{
    ascending_names_are_distinct(names);
    assert(names.contains(names[i]));
}

/// The map holds as many names as there are.
pub proof fn paired_len<V>(names: Seq<Seq<char>>, values: Seq<V>)
    requires
        ascending(names),
    ensures
        paired(names, values).dom() == names.to_set(),
        paired(names, values).dom().finite(),
        paired(names, values).len() == names.len(),
{
    ascending_names_are_distinct(names);
    names.unique_seq_to_set();
    assert(paired(names, values).dom() =~= names.to_set());
    vstd::seq_lib::seq_to_set_is_finite(names);
}

proof fn paired_insert<V>(names: Seq<Seq<char>>, values: Seq<V>, i: int, name: Seq<char>, value: V)
    requires
        ascending(names),
        values.len() == names.len(),
        0 <= i <= names.len(),
        forall|j: int| 0 <= j < i ==> text::precedes(#[trigger] names[j], name),
        forall|j: int| i <= j < names.len() ==> text::precedes(name, #[trigger] names[j]),
    ensures
        ascending(names.insert(i, name)),
        paired(names.insert(i, name), values.insert(i, value)) == paired(names, values).insert(
            name,
            value,
        ),
{
    let names2 = names.insert(i, name);
    let values2 = values.insert(i, value);
    assert forall|a: int, b: int| 0 <= a < b < names2.len() implies text::precedes(
        #[trigger] names2[a],
        #[trigger] names2[b],
    ) by {
        let a0 = if a < i { a } else { a - 1 };
        let b0 = if b < i { b } else { b - 1 };
        if a != i {
            assert(names2[a] == names[a0]);
        }
        if b != i {
            assert(names2[b] == names[b0]);
        }
    }
    assert forall|n: Seq<char>| names2.contains(n) == (n == name || names.contains(n)) by {
        if names.contains(n) {
            let j = names.index_of(n);
            assert(names2[if j < i { j } else { j + 1 }] == n);
        }
        assert(names2[i] == name);
        if names2.contains(n) && n != name {
            let j = names2.index_of(n);
            assert(names[if j < i { j } else { j - 1 }] == n);
        }
    }
    let m2 = paired(names2, values2);
    let m = paired(names, values).insert(name, value);
    assert forall|n: Seq<char>| m2.contains_key(n) implies m2[n] == m[n] by {
        if n == name {
            paired_at(names2, values2, i);
        } else {
            let j = names.index_of(n);
            assert(names.contains(n));
            paired_at(names, values, j);
            paired_at(names2, values2, if j < i { j } else { j + 1 });
        }
    }
    assert(m2 =~= m);
}

proof fn paired_remove<V>(names: Seq<Seq<char>>, values: Seq<V>, i: int)
    requires
        ascending(names),
        values.len() == names.len(),
        0 <= i < names.len(),
    ensures
        ascending(names.remove(i)),
        paired(names.remove(i), values.remove(i)) == paired(names, values).remove(names[i]),
{
    let names2 = names.remove(i);
    let values2 = values.remove(i);
    ascending_names_are_distinct(names);
    assert forall|a: int, b: int| 0 <= a < b < names2.len() implies text::precedes(
        #[trigger] names2[a],
        #[trigger] names2[b],
    ) by {
        assert(names2[a] == names[if a < i { a } else { a + 1 }]);
        assert(names2[b] == names[if b < i { b } else { b + 1 }]);
    }
    assert forall|n: Seq<char>| names2.contains(n) == (n != names[i] && names.contains(n)) by {
        if names2.contains(n) {
            let j = names2.index_of(n);
            assert(names[if j < i { j } else { j + 1 }] == n);
        }
        if names.contains(n) && n != names[i] {
            let j = names.index_of(n);
            assert(names2[if j < i { j } else { j - 1 }] == n);
        }
    }
    let m2 = paired(names2, values2);
    let m = paired(names, values).remove(names[i]);
    assert forall|n: Seq<char>| m2.contains_key(n) implies m2[n] == m[n] by {
        assert(names2.contains(n));
        let j = names.index_of(n);
        paired_at(names, values, j);
        paired_at(names2, values2, if j < i { j } else { j - 1 });
    }
    assert(m2 =~= m);
}

/// To change the value at position `i` is to change what the map holds under the
/// name there.
pub proof fn paired_update<V>(names: Seq<Seq<char>>, values: Seq<V>, i: int, value: V)
    requires
        ascending(names),
        values.len() == names.len(),
        0 <= i < names.len(),
    ensures
        paired(names, values.update(i, value)) == paired(names, values).insert(names[i], value),
{
    ascending_names_are_distinct(names);
    let m2 = paired(names, values.update(i, value));
    let m = paired(names, values).insert(names[i], value);
    assert(names.contains(names[i]));
    assert forall|n: Seq<char>| m2.contains_key(n) implies m2[n] == m[n] by {
        let j = names.index_of(n);
        assert(names.contains(n));
        paired_at(names, values, j);
        paired_at(names, values.update(i, value), j);
    }
    assert(m2 =~= m);
}

impl<V> NameMap<V> {
    /// Creates an empty map.
    pub fn new() -> (m: NameMap<V>)
        ensures
            m.wf(),
            m.names() == Seq::<Seq<char>>::empty(),
            m@ == Map::<Seq<char>, V>::empty(),
    {
        let m = NameMap { entries: Vec::new() };
        assert(m.names() =~= Seq::<Seq<char>>::empty());
        assert(m@ =~= Map::<Seq<char>, V>::empty());
        m
    }

    /// Returns how many names there are.
    pub fn len(&self) -> (n: usize)
        ensures
            n == self.names().len(),
    {
        self.entries.len()
    }

    /// Finds where `name` stands, or where it belongs.
    pub fn find(&self, name: &str) -> (r: Result<usize, usize>)
        requires
            self.wf(),
        ensures
            match r {
                Ok(i) => i < self.names().len() && self.names()[i as int] == name@ && self@.contains_key(
                    name@,
                ) && self@[name@] == self.values()[i as int],
                Err(i) => {
                    &&& i <= self.names().len()
                    &&& !self@.contains_key(name@)
                    &&& forall|j: int|
                        0 <= j < i ==> text::precedes(#[trigger] self.names()[j], name@)
                    &&& forall|j: int|
                        i <= j < self.names().len() ==> text::precedes(
                            name@,
                            #[trigger] self.names()[j],
                        )
                },
            },
    {
        let mut lo: usize = 0;
        let mut hi: usize = self.entries.len();
        while lo < hi
            invariant
                self.wf(),
                self.names().len() == self.entries@.len(),
                lo <= hi <= self.names().len(),
                forall|j: int| 0 <= j < lo ==> text::precedes(#[trigger] self.names()[j], name@),
                forall|j: int|
                    hi <= j < self.names().len() ==> text::precedes(
                        name@,
                        #[trigger] self.names()[j],
                    ),
            decreases hi - lo,
        {
            let mid: usize = lo + (hi - lo) / 2;
            let here = self.entries[mid].0.as_str();
            assert(here@ == self.names()[mid as int]);
            if text::before(here, name) {
                proof {
                    assert forall|j: int| 0 <= j < mid + 1 implies text::precedes(
                        #[trigger] self.names()[j],
                        name@,
                    ) by {
                        if j < mid {
                            text::precedes_transitive(
                                self.names()[j],
                                self.names()[mid as int],
                                name@,
                            );
                        }
                    }
                }
                lo = mid + 1;
            } else if text::before(name, here) {
                proof {
                    assert forall|j: int| mid <= j < self.names().len() implies text::precedes(
                        name@,
                        #[trigger] self.names()[j],
                    ) by {
                        if mid < j {
                            text::precedes_transitive(
                                name@,
                                self.names()[mid as int],
                                self.names()[j],
                            );
                        }
                    }
                }
                hi = mid;
            } else {
                proof {
                    text::precedes_total(here@, name@);
                    paired_at(self.names(), self.values(), mid as int);
                }
                return Ok(mid);
            }
        }
        proof {
            if self.names().contains(name@) {
                let j = self.names().index_of(name@);
                text::precedes_irreflexive(name@);
                assert(self.names()[j] == name@);
            }
        }
        Err(lo)
    }

    /// Returns the name at position `i`.
    pub fn name_at(&self, i: usize) -> (name: &str)
        requires
            i < self.names().len(),
        ensures
            name@ == self.names()[i as int],
    {
        self.entries[i].0.as_str()
    }

    /// Returns the value at position `i`.
    pub fn value_at(&self, i: usize) -> (value: &V)
        requires
            i < self.names().len(),
        ensures
            *value == self.values()[i as int],
    {
        &self.entries[i].1
    }

    /// Lends the value at position `i` for a change.
    pub fn value_at_mut(&mut self, i: usize) -> (value: &mut V)
        requires
            i < old(self).names().len(),
        ensures
            *value == old(self).values()[i as int],
            final(self).names() == old(self).names(),
            final(self).values() == old(self).values().update(i as int, *final(value)),
    {
        &mut self.entries[i].1
    }

    /// Puts a new name in the place that [`NameMap::find`] found for it.
    pub fn insert_at(&mut self, i: usize, name: String, value: V)
        requires
            old(self).wf(),
            i <= old(self).names().len(),
            forall|j: int| 0 <= j < i ==> text::precedes(#[trigger] old(self).names()[j], name@),
            forall|j: int|
                i <= j < old(self).names().len() ==> text::precedes(
                    name@,
                    #[trigger] old(self).names()[j],
                ),
        ensures
            final(self).wf(),
            final(self).names() == old(self).names().insert(i as int, name@),
            final(self).values() == old(self).values().insert(i as int, value),
            final(self)@ == old(self)@.insert(name@, value),
    {
        let ghost before = *self;
        self.entries.insert(i, (name, value));
        proof {
            assert(self.names() =~= before.names().insert(i as int, name@));
            assert(self.values() =~= before.values().insert(i as int, value));
            paired_insert(before.names(), before.values(), i as int, name@, value);
        }
    }

    /// Takes out the value at position `i`, together with its name.
    pub fn remove_at(&mut self, i: usize) -> (value: V)
        requires
            old(self).wf(),
            i < old(self).names().len(),
        ensures
            value == old(self).values()[i as int],
            final(self).wf(),
            final(self).names() == old(self).names().remove(i as int),
            final(self).values() == old(self).values().remove(i as int),
            final(self)@ == old(self)@.remove(old(self).names()[i as int]),
    {
        let ghost before = *self;
        let (_, value) = self.entries.remove(i);
        proof {
            assert(self.names() =~= before.names().remove(i as int));
            assert(self.values() =~= before.values().remove(i as int));
            paired_remove(before.names(), before.values(), i as int);
        }
        value
    }

    /// Puts `value` under `name`, in place of what stood there.
    pub fn insert(&mut self, name: String, value: V)
        requires
            old(self).wf(),
        ensures
            final(self).wf(),
            final(self)@ == old(self)@.insert(name@, value),
    {
        match self.find(name.as_str()) {
            Ok(i) => {
                proof {
                    paired_update(self.names(), self.values(), i as int, value);
                }
                *self.value_at_mut(i) = value;
            },
            Err(i) => self.insert_at(i, name, value),
        }
    }
}

} // verus!
