//! Component stores, keyed by entity id, and the join over two of them.

use vstd::prelude::*;

verus! {

/// The ids below `n` that belong to `members`, in ascending order.
pub open spec fn ascending(members: Set<int>, n: nat) -> Seq<int>
    decreases n,
{
    if n == 0 {
        Seq::empty()
    } else if members.contains(n - 1) {
        ascending(members, (n - 1) as nat).push(n - 1)
    } else {
        ascending(members, (n - 1) as nat)
    }
}

/// A sequence of machine-sized ids, read as mathematical integers.
pub open spec fn as_ints(ids: Seq<usize>) -> Seq<int> {
    ids.map_values(|id: usize| id as int)
}

/// Whether every id in `members` lies in `0..n`.
pub open spec fn below(members: Set<int>, n: nat) -> bool {
    forall|id: int| members.contains(id) ==> 0 <= id < n
}

/// `ascending(members, n)` holds exactly the members below `n`, and no more
/// than `n` of them.
pub proof fn lemma_ascending_members(members: Set<int>, n: nat)
    ensures
        ascending(members, n).len() <= n,
        forall|id: int| #[trigger]
            ascending(members, n).contains(id) ==> members.contains(id) && 0 <= id < n,
        forall|id: int| #[trigger]
            members.contains(id) && 0 <= id < n ==> ascending(members, n).contains(id),
    decreases n,
{
    if n > 0 {
        let rest = ascending(members, (n - 1) as nat);
        lemma_ascending_members(members, (n - 1) as nat);
        if members.contains(n - 1) {
            let grown = rest.push(n - 1);
            assert forall|id: int| #[trigger] grown.contains(id) implies members.contains(id) && 0
                <= id < n by {
                let k = choose|k: int| 0 <= k < grown.len() && grown[k] == id;
                if k < rest.len() {
                    assert(rest[k] == id);
                    assert(rest.contains(id));
                }
            }
            assert forall|id: int| #[trigger] members.contains(id) && 0 <= id < n implies grown.contains(
                id,
            ) by {
                if id == n - 1 {
                    assert(grown[rest.len() as int] == id);
                } else {
                    assert(rest.contains(id));
                    let k = choose|k: int| 0 <= k < rest.len() && rest[k] == id;
                    assert(grown[k] == id);
                }
            }
        }
    }
}

/// `ascending(members, n)` is strictly increasing.
pub proof fn lemma_ascending_sorted(members: Set<int>, n: nat)
    ensures
        forall|i: int, j: int|
            0 <= i < j < ascending(members, n).len() ==> ascending(members, n)[i] < ascending(
                members,
                n,
            )[j],
    decreases n,
{
    if n > 0 {
        let rest = ascending(members, (n - 1) as nat);
        lemma_ascending_sorted(members, (n - 1) as nat);
        lemma_ascending_members(members, (n - 1) as nat);
        if members.contains(n - 1) {
            let grown = rest.push(n - 1);
            assert forall|i: int, j: int| 0 <= i < j < grown.len() implies grown[i] < grown[j] by {
                assert(grown[i] == rest[i]);
                if j == rest.len() {
                    assert(rest.contains(rest[i]));
                    assert(rest[i] < n - 1);
                    assert(grown[j] == n - 1);
                } else {
                    assert(grown[j] == rest[j]);
                    assert(rest[i] < rest[j]);
                }
            }
        }
    }
}

/// Once a bound covers every member, a larger bound enumerates the same ids.
pub proof fn lemma_ascending_covered(members: Set<int>, m: nat, n: nat)
    requires
        below(members, m),
        m <= n,
    ensures
        ascending(members, n) == ascending(members, m),
    decreases n,
{
    if m < n {
        lemma_ascending_covered(members, m, (n - 1) as nat);
    }
}

/// Whether `id` is among the first `k` of `ids`.
pub open spec fn listed(ids: Seq<usize>, k: int, id: int) -> bool {
    exists|j: int| 0 <= j < k && #[trigger] ids[j] == id
}

/// What a join of two stores of a well-formed world returns: the ids are
/// distinct, and an id is among them exactly if it is in `both`.
pub proof fn lemma_joined(ids: Seq<usize>, both: Set<int>, limit: nat, entities: nat)
    requires
        as_ints(ids) == ascending(both, limit),
        forall|id: int| both.contains(id) ==> 0 <= id < limit,
        forall|id: int| both.contains(id) ==> 0 <= id < entities,
    ensures
        as_ints(ids) == ascending(both, entities),
        forall|i: int, j: int| 0 <= i < j < ids.len() ==> ids[i] < ids[j],
        forall|j: int| 0 <= j < ids.len() ==> both.contains(#[trigger] ids[j] as int),
        forall|id: int| #[trigger] both.contains(id) ==> listed(ids, ids.len() as int, id),
{
    let ints = as_ints(ids);
    if limit <= entities {
        lemma_ascending_covered(both, limit, entities);
    } else {
        lemma_ascending_covered(both, entities, limit);
    }
    lemma_ascending_sorted(both, limit);
    lemma_ascending_members(both, limit);
    assert forall|i: int, j: int| 0 <= i < j < ids.len() implies ids[i] < ids[j] by {
        assert(ints[i] == ids[i]);
        assert(ints[j] == ids[j]);
    }
    assert forall|j: int| 0 <= j < ids.len() implies both.contains(#[trigger] ids[j] as int) by {
        assert(ints[j] == ids[j]);
        assert(ints.contains(ids[j] as int));
    }
    assert forall|id: int| #[trigger] both.contains(id) implies listed(
        ids,
        ids.len() as int,
        id,
    ) by {
        assert(ints.contains(id));
        let j = choose|j: int| 0 <= j < ints.len() && ints[j] == id;
        assert(ids[j] == id);
    }
}

/// The membership side of a component store: which entities own a component
/// in it.
pub trait Storage {
    /// The ids of the entities that own a component in this store.
    spec fn members(&self) -> Set<int>;

    /// How many ids the store has room for; every member lies below it.
    spec fn limit(&self) -> nat;

    /// Returns the store's limit: ids from it on own no component here.
    fn bound(&self) -> (n: usize)
        ensures
            n == self.limit(),
            below(self.members(), n as nat),
    ;

    /// Tells whether the entity `id` owns a component in this store.
    fn contains(&self, id: usize) -> (b: bool)
        ensures
            b == self.members().contains(id as int),
    ;
}

/// Dense storage: one slot per entity id, filled where the entity owns the
/// component.
pub struct VecStorage<T> {
    slots: Vec<Option<T>>,
}

impl<T> View for VecStorage<T> {
    type V = Map<int, T>;

    /// The components by the id of the entity that owns them.
    closed spec fn view(&self) -> Map<int, T> {
        Map::new(
            |id: int| 0 <= id < self.slots@.len() && self.slots@[id] is Some,
            |id: int| self.slots@[id]->Some_0,
        )
    }
}

impl<T> VecStorage<T> {
    /// The number of slots the store has allocated.
    pub closed spec fn slot_count(&self) -> nat {
        self.slots@.len()
    }

    /// The id of every entity with a component here leaves room for the
    /// slot after it.
    pub proof fn lemma_ids_fit(&self)
        ensures
            below(self@.dom(), usize::MAX as nat),
    {
        assert(self.slots@.len() == self.slots.len());
    }

    /// Creates a store that holds no component.
    pub fn new() -> (store: Self)
        ensures
            store@ == Map::<int, T>::empty(),
            store.slot_count() == 0,
    {
        let store = VecStorage { slots: Vec::new() };
        assert(store@ =~= Map::<int, T>::empty());
        store
    }

    /// Returns the component of the entity `id`, if it owns one.
    pub fn get(&self, id: usize) -> (found: Option<&T>)
        ensures
            found == (if self@.dom().contains(id as int) {
                Some(&self@[id as int])
            } else {
                None
            }),
    {
        if id < self.slots.len() {
            match &self.slots[id] {
                Some(component) => Some(component),
                None => None,
            }
        } else {
            None
        }
    }

    /// Gives the entity `id` the component `value`, in place of the one it
    /// owned, which is returned. The store grows to `id + 1` slots if it
    /// had fewer, so that number has to fit the machine.
    pub fn insert(&mut self, id: usize, value: T) -> (previous: Option<T>)
        requires
            id < usize::MAX,
        ensures
            final(self)@ == old(self)@.insert(id as int, value),
            previous == (if old(self)@.dom().contains(id as int) {
                Some(old(self)@[id as int])
            } else {
                None
            }),
            final(self).slot_count() == (if id < old(self).slot_count() {
                old(self).slot_count()
            } else {
                (id + 1) as nat
            }),
    {
        while self.slots.len() <= id
            invariant
                self@ == old(self)@,
                self.slots@.len() >= old(self).slots@.len(),
                self.slots@.len() <= id + 1 || self.slots@.len() == old(self).slots@.len(),
            decreases id + 1 - self.slots@.len(),
        {
            let ghost before = self@;
            self.slots.push(None);
            assert(self@ =~= before);
        }
        let ghost grown = self.slots@;
        let mut slot: Option<T> = Some(value);
        core::mem::swap(&mut self.slots[id], &mut slot);
        assert(self.slots@ == grown.update(id as int, Some(value)));
        assert(self@ =~= old(self)@.insert(id as int, value));
        slot
    }
}

impl<T> Storage for VecStorage<T> {
    open spec fn members(&self) -> Set<int> {
        self@.dom()
    }

    open spec fn limit(&self) -> nat {
        self.slot_count()
    }

    fn bound(&self) -> (n: usize) {
        self.slots.len()
    }

    fn contains(&self, id: usize) -> (b: bool) {
        id < self.slots.len() && self.slots[id].is_some()
    }
}

/// Flag-only storage for a component that carries no data.
pub struct NullStorage {
    flags: Vec<bool>,
}

impl View for NullStorage {
    type V = Set<int>;

    /// The ids of the entities that carry the flag.
    closed spec fn view(&self) -> Set<int> {
        Set::new(|id: int| 0 <= id < self.flags@.len() && self.flags@[id])
    }
}

impl NullStorage {
    /// The number of flags the store has allocated.
    pub closed spec fn slot_count(&self) -> nat {
        self.flags@.len()
    }

    /// Creates a store in which no entity carries the flag.
    pub fn new() -> (store: Self)
        ensures
            store@ == Set::<int>::empty(),
            store.slot_count() == 0,
    {
        let store = NullStorage { flags: Vec::new() };
        assert(store@ =~= Set::<int>::empty());
        store
    }

    /// Flags the entity `id`; tells whether it already carried the flag.
    /// The store grows to `id + 1` slots if it had fewer, so that number
    /// has to fit the machine.
    pub fn insert(&mut self, id: usize) -> (previous: bool)
        requires
            id < usize::MAX,
        ensures
            final(self)@ == old(self)@.insert(id as int),
            previous == old(self)@.contains(id as int),
            final(self).slot_count() == (if id < old(self).slot_count() {
                old(self).slot_count()
            } else {
                (id + 1) as nat
            }),
    {
        while self.flags.len() <= id
            invariant
                self@ == old(self)@,
                self.flags@.len() >= old(self).flags@.len(),
                self.flags@.len() <= id + 1 || self.flags@.len() == old(self).flags@.len(),
            decreases id + 1 - self.flags@.len(),
        {
            let ghost before = self@;
            self.flags.push(false);
            assert(self@ =~= before);
        }
        let previous = self.flags[id];
        self.flags.set(id, true);
        assert(self@ =~= old(self)@.insert(id as int));
        previous
    }
}

impl Storage for NullStorage {
    open spec fn members(&self) -> Set<int> {
        self@
    }

    open spec fn limit(&self) -> nat {
        self.slot_count()
    }

    fn bound(&self) -> (n: usize) {
        self.flags.len()
    }

    fn contains(&self, id: usize) -> (b: bool) {
        id < self.flags.len() && self.flags[id]
    }
}

/// The smaller of two limits.
pub open spec fn smaller(m: nat, n: nat) -> nat {
    if m <= n {
        m
    } else {
        n
    }
}

/// Joins two stores: returns, in ascending order, the ids of the entities
/// that own a component in both. Only ids below the smaller store's limit
/// are examined.
pub fn join<A: Storage, B: Storage>(a: &A, b: &B) -> (ids: Vec<usize>)
    ensures
        as_ints(ids@) == ascending(
            a.members().intersect(b.members()),
            smaller(a.limit(), b.limit()),
        ),
        below(a.members().intersect(b.members()), smaller(a.limit(), b.limit())),
{
    let bound_a = a.bound();
    let bound_b = b.bound();
    let n: usize = if bound_a <= bound_b {
        bound_a
    } else {
        bound_b
    };
    let ghost both = a.members().intersect(b.members());
    let mut ids: Vec<usize> = Vec::new();
    let mut id: usize = 0;
    while id < n
        invariant
            id <= n,
            both == a.members().intersect(b.members()),
            as_ints(ids@) =~= ascending(both, id as nat),
        decreases n - id,
    {
        let ghost before = ids@;
        if a.contains(id) && b.contains(id) {
            ids.push(id);
            assert(as_ints(ids@) =~= as_ints(before).push(id as int));
        }
        id += 1;
    }
    ids
}

} // verus!
