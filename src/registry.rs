use std::collections::HashMap;
use std::hash::Hash;
use vstd::prelude::*;
use vstd::std_specs::hash::obeys_key_model;

use crate::slot::{complete_all, complete_spec, lemma_completed_stays, Slot};

verus! {

broadcast use vstd::std_specs::hash::group_hash_axioms;

/// What a caller learns on arriving with a key: either it attached to the
/// cell already in flight for that key (a waiter), or it reserved the key
/// with its own fresh cell (the owner, which runs the work).
pub enum Lookup<C> {
    Attached(C),
    Reserved,
}

/// One arrival at the registry: an entry for `key` is joined, an absent one is
/// filled with `fresh`.
pub open spec fn arrive<K, C>(m: Map<K, C>, key: K, fresh: C) -> (Map<K, C>, Lookup<C>) {
    if m.contains_key(key) {
        (m, Lookup::Attached(m[key]))
    } else {
        (m.insert(key, fresh), Lookup::Reserved)
    }
}

/// What each of a series of callers for one key learns, in order of arrival,
/// when none of them has finished yet.
pub open spec fn arrivals<K, C>(m: Map<K, C>, key: K, cells: Seq<C>) -> Seq<Lookup<C>>
    decreases cells.len(),
{
    if cells.len() == 0 {
        Seq::empty()
    } else {
        let (next, first) = arrive(m, key, cells[0]);
        seq![first] + arrivals(next, key, cells.drop_first())
    }
}

/// The map from each key with work in flight to that work's cell.
pub struct Registry<K, C> {
    cells: HashMap<K, C>,
}

impl<K, C> View for Registry<K, C> {
    type V = Map<K, C>;

    closed spec fn view(&self) -> Map<K, C> {
        self.cells@
    }
}

impl<K: Hash + Eq, C> Registry<K, C> {
    /// A registry with no work in flight.
    pub fn new() -> (r: Registry<K, C>)
        ensures
            r@ == Map::<K, C>::empty(),
    {
        Registry { cells: HashMap::new() }
    }

    /// The cell in flight for `key`, if any.
    pub fn lookup(&self, key: &K) -> (r: Option<&C>)
        requires
            obeys_key_model::<K>(),
        ensures
            match r {
                Some(c) => self@.contains_key(*key) && self@[*key] == *c,
                None => !self@.contains_key(*key),
            },
    {
        self.cells.get(key)
    }

    /// Whether work is in flight for `key`.
    pub fn is_in_flight(&self, key: &K) -> (r: bool)
        requires
            obeys_key_model::<K>(),
        ensures
            r == self@.contains_key(*key),
    {
        self.cells.contains_key(key)
    }

    /// Number of keys with work in flight.
    pub fn len(&self) -> (r: usize)
        requires
            obeys_key_model::<K>(),
        ensures
            r == self@.len(),
    {
        self.cells.len()
    }

    /// Reserves `key` for a new unit of work with the cell `fresh`. Where an
    /// entry already stands for the key it is kept and `false` comes back: the
    /// caller is then a waiter on that entry's cell.
    pub fn reserve(&mut self, key: K, fresh: C) -> (r: bool)
        requires
            obeys_key_model::<K>(),
        ensures
            final(self)@ == arrive(old(self)@, key, fresh).0,
            r == arrive(old(self)@, key, fresh).1 is Reserved,
    {
        if self.cells.contains_key(&key) {
            false
        } else {
            self.cells.insert(key, fresh);
            true
        }
    }

    /// Drops the entry for `key`, whichever cell it holds: later arrivals for
    /// the key start new work.
    pub fn remove(&mut self, key: &K)
        requires
            obeys_key_model::<K>(),
        ensures
            final(self)@ == old(self)@.remove(*key),
    {
        self.cells.remove(key);
    }

    /// The owner's last step: removes the registry entry for `key`, then
    /// writes the outcome into the owner's slot, from which every waiter
    /// reads it. A slot that was already written is left as it was.
    pub fn settle<T>(&mut self, key: &K, slot: &mut Slot<T>, outcome: T) -> (r: Result<(), T>)
        requires
            obeys_key_model::<K>(),
        ensures
            final(self)@ == old(self)@.remove(*key),
            final(slot)@ == complete_spec(old(slot)@, outcome),
            old(slot)@.is_none() ==> r is Ok,
            old(slot)@.is_some() ==> r == Err::<(), T>(outcome),
    {
        self.remove(key);
        slot.complete(outcome)
    }
}

/// While one caller's work for a key is in flight, any number of callers
/// arriving with that key all attach to the first caller's cell: of all of
/// them exactly one, the first, reserves the key and runs the work.
pub proof fn lemma_single_execution<K, C>(m: Map<K, C>, key: K, cells: Seq<C>)
    requires
        !m.contains_key(key),
        cells.len() >= 1,
    ensures
        arrivals(m, key, cells).len() == cells.len(),
        arrivals(m, key, cells)[0] is Reserved,
        forall|i: int|
            1 <= i < cells.len() ==> #[trigger] arrivals(m, key, cells)[i] == Lookup::Attached(
                cells[0],
            ),
{
    let next = m.insert(key, cells[0]);
    lemma_arrivals_attach(next, key, cells.drop_first());
    assert forall|i: int| 1 <= i < cells.len() implies #[trigger] arrivals(m, key, cells)[i]
        == Lookup::Attached(cells[0]) by {
        assert(arrivals(m, key, cells)[i] == arrivals(next, key, cells.drop_first())[i - 1]);
    }
}

/// Every arrival for a key that already has an entry attaches to that entry's
/// cell and leaves the registry as it was.
pub proof fn lemma_arrivals_attach<K, C>(m: Map<K, C>, key: K, cells: Seq<C>)
    requires
        m.contains_key(key),
    ensures
        arrivals(m, key, cells).len() == cells.len(),
        forall|i: int|
            0 <= i < cells.len() ==> #[trigger] arrivals(m, key, cells)[i] == Lookup::Attached(
                m[key],
            ),
    decreases cells.len(),
{
    if cells.len() > 0 {
        lemma_arrivals_attach(m, key, cells.drop_first());
        assert forall|i: int| 0 <= i < cells.len() implies #[trigger] arrivals(m, key, cells)[i]
            == Lookup::Attached(m[key]) by {
            if i > 0 {
                assert(arrivals(m, key, cells)[i] == arrivals(m, key, cells.drop_first())[i - 1]);
            }
        }
    }
}

/// Work for one key neither joins nor disturbs work for another: an arrival
/// or a removal for `k1` leaves the entry for a distinct `k2`, and what a
/// caller for `k2` learns, as they were.
pub proof fn lemma_key_isolation<K, C>(m: Map<K, C>, k1: K, k2: K, c1: C, c2: C)
    requires
        k1 != k2,
    ensures
        arrive(m, k1, c1).0.contains_key(k2) == m.contains_key(k2),
        m.contains_key(k2) ==> arrive(m, k1, c1).0[k2] == m[k2],
        arrive(arrive(m, k1, c1).0, k2, c2).1 == arrive(m, k2, c2).1,
        arrive(arrive(m, k1, c1).0, k2, c2).0[k2] == arrive(m, k2, c2).0[k2],
        arrive(m.remove(k1), k2, c2).1 == arrive(m, k2, c2).1,
        arrive(m.remove(k1), k2, c2).0[k2] == arrive(m, k2, c2).0[k2],
{
}

/// Once the entry for a key has been removed, the next caller with that key
/// reserves it afresh with its own cell and runs its own work.
pub proof fn lemma_fresh_after_removal<K, C>(m: Map<K, C>, key: K, fresh: C)
    ensures
        arrive(m.remove(key), key, fresh) == (m.remove(key).insert(key, fresh), Lookup::<
            C,
        >::Reserved),
{
}

/// A caller that arrives while the owner's work is in flight attaches to the
/// owner's cell without registering its own work; however late it reads, even
/// after the owner has removed the entry, it finds the owner's first write.
pub proof fn lemma_late_await<K, C, T>(
    m: Map<K, C>,
    key: K,
    owner_cell: C,
    late_cell: C,
    outcome: T,
    later_writes: Seq<T>,
)
    requires
        !m.contains_key(key),
    ensures
        arrive(arrive(m, key, owner_cell).0, key, late_cell) == (
            arrive(m, key, owner_cell).0,
            Lookup::Attached(owner_cell),
        ),
        !arrive(arrive(m, key, owner_cell).0, key, late_cell).0.remove(key).contains_key(key),
        complete_all(complete_spec(None::<T>, outcome), later_writes) == Some(outcome),
{
    lemma_completed_stays(outcome, later_writes);
}

/// Two keys are one unit of work exactly when they are equal: with neither in
/// flight, a caller for `k2` after a caller for `k1` attaches to the first
/// caller's cell if `k1 == k2`, and reserves its own otherwise.
pub proof fn lemma_key_equality<K, C>(m: Map<K, C>, k1: K, k2: K, c1: C, c2: C)
    requires
        !m.contains_key(k1),
        !m.contains_key(k2),
    ensures
        arrive(arrive(m, k1, c1).0, k2, c2).1 == (if k1 == k2 {
            Lookup::Attached(c1)
        } else {
            Lookup::Reserved
        }),
{
}

} // verus!
