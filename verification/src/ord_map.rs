//! An ordered map over keys with a total order.
//!
//! Keys are kept strictly increasing, so a walk over the map visits them in
//! order. The map's view is a mathematical map from key identities to values.

use vstd::prelude::*;

use crate::order::{OrdKey, Order};

verus! {

/// Identities in strictly increasing order.
pub open spec fn increasing<K: OrdKey>(ids: Seq<K::Id>) -> bool {
    forall|i: int, j: int| 0 <= i < j < ids.len() ==> K::before(ids[i], ids[j])
}

/// Two increasing sequences with the same members are the same sequence.
pub proof fn lemma_increasing_unique<K: OrdKey>(a: Seq<K::Id>, b: Seq<K::Id>)
    requires
        increasing::<K>(a),
        increasing::<K>(b),
        forall|x: K::Id| a.contains(x) <==> b.contains(x),
    ensures
        a == b,
    decreases a.len(),
{
    if a.len() == 0 {
        if b.len() > 0 {
            assert(b.contains(b[0]));
            assert(a.contains(b[0]));
        }
        assert(a =~= b);
    } else {
        assert(a.contains(a.last()));
        assert(b.contains(a.last()));
        assert(b.contains(b.last()));
        assert(a.contains(b.last()));
        lemma_last_is_greatest::<K>(a, b.last());
        lemma_last_is_greatest::<K>(b, a.last());
        if a.last() != b.last() {
            K::law_transitive(a.last(), b.last(), a.last());
            K::law_irreflexive(a.last());
        }
        let a1 = a.drop_last();
        let b1 = b.drop_last();
        assert forall|x: K::Id| a1.contains(x) <==> b1.contains(x) by {
            lemma_drop_last_contains::<K>(a, x);
            lemma_drop_last_contains::<K>(b, x);
        }
        lemma_increasing_unique::<K>(a1, b1);
        assert(a =~= a1.push(a.last()));
        assert(b =~= b1.push(b.last()));
    }
}

proof fn lemma_last_is_greatest<K: OrdKey>(a: Seq<K::Id>, x: K::Id)
    requires
        increasing::<K>(a),
        a.contains(x),
    ensures
        x == a.last() || K::before(x, a.last()),
{
    let i = a.index_of(x);
    if i < a.len() - 1 {
        assert(K::before(a[i], a[a.len() - 1]));
    }
}

proof fn lemma_drop_last_contains<K: OrdKey>(a: Seq<K::Id>, x: K::Id)
    requires
        increasing::<K>(a),
        a.len() > 0,
    ensures
        a.drop_last().contains(x) <==> (a.contains(x) && x != a.last()),
{
    let b = a.drop_last();
    if b.contains(x) {
        let i = b.index_of(x);
        assert(a[i] == x);
        assert(K::before(a[i], a[a.len() - 1]));
        K::law_irreflexive(x);
    }
    if a.contains(x) && x != a.last() {
        let i = a.index_of(x);
        assert(b[i] == x);
    }
}

/// An increasing sequence names no identity twice.
pub proof fn lemma_increasing_distinct<K: OrdKey>(a: Seq<K::Id>, i: int, j: int)
    requires
        increasing::<K>(a),
        0 <= i < a.len(),
        0 <= j < a.len(),
        a[i] == a[j],
    ensures
        i == j,
{
    K::law_irreflexive(a[i]);
}

/// `ids` lists the members of a set in increasing order.
pub open spec fn enumerates<K: OrdKey>(ids: Seq<K::Id>, members: Set<K::Id>) -> bool {
    &&& increasing::<K>(ids)
    &&& forall|k: K::Id| #[trigger] ids.contains(k) <==> members.contains(k)
}

/// The members of a set, in increasing order.
pub open spec fn sorted<K: OrdKey>(members: Set<K::Id>) -> Seq<K::Id> {
    choose|ids: Seq<K::Id>| enumerates::<K>(ids, members)
}

/// A set has one increasing listing.
pub proof fn lemma_sorted<K: OrdKey>(ids: Seq<K::Id>, members: Set<K::Id>)
    requires
        enumerates::<K>(ids, members),
    ensures
        sorted::<K>(members) == ids,
{
    let other = sorted::<K>(members);
    assert(enumerates::<K>(other, members));
    lemma_increasing_unique::<K>(ids, other);
}

/// A set that can be listed is finite, and its listing is as long as it is large.
pub proof fn lemma_listed<K: OrdKey>(ids: Seq<K::Id>, members: Set<K::Id>)
    requires
        enumerates::<K>(ids, members),
    ensures
        members.finite(),
        members.len() == ids.len(),
{
    assert(ids.to_set() =~= members) by {
        assert forall|k: K::Id| ids.to_set().contains(k) <==> members.contains(k) by {
            assert(ids.contains(k) <==> members.contains(k));
        }
    }
    assert forall|i: int, j: int|
        0 <= i < ids.len() && 0 <= j < ids.len() && i != j implies ids[i] != ids[j] by {
        if ids[i] == ids[j] {
            lemma_increasing_distinct::<K>(ids, i, j);
        }
    }
    assert(ids.no_duplicates());
    ids.unique_seq_to_set();
    vstd::seq_lib::seq_to_set_is_finite(ids);
}

/// Increasing ids with one more at its place.
spec fn with_member<K: OrdKey>(ids: Seq<K::Id>, x: K::Id) -> Seq<K::Id>
    decreases ids.len(),
{
    if ids.len() > 0 && K::before(x, ids.last()) {
        with_member::<K>(ids.drop_last(), x).push(ids.last())
    } else {
        ids.push(x)
    }
}

proof fn lemma_with_member<K: OrdKey>(ids: Seq<K::Id>, x: K::Id)
    requires
        increasing::<K>(ids),
        !ids.contains(x),
    ensures
        increasing::<K>(with_member::<K>(ids, x)),
        forall|k: K::Id| #[trigger]
            with_member::<K>(ids, x).contains(k) <==> ids.contains(k) || k == x,
    decreases ids.len(),
{
    let more = with_member::<K>(ids, x);
    if ids.len() > 0 && K::before(x, ids.last()) {
        let earlier = ids.drop_last();
        let last = ids.last();
        assert forall|k: K::Id| #[trigger] earlier.contains(k) <==> ids.contains(k) && k != last by {
            lemma_drop_last_contains::<K>(ids, k);
        }
        lemma_with_member::<K>(earlier, x);
        let before = with_member::<K>(earlier, x);
        assert forall|i: int, j: int| 0 <= i < j < more.len() implies K::before(
            more[i],
            more[j],
        ) by {
            if j == more.len() - 1 {
                assert(before.contains(before[i]));
                if before[i] != x {
                    assert(earlier.contains(before[i]));
                    let at = earlier.index_of(before[i]);
                    assert(K::before(ids[at], ids[ids.len() - 1]));
                }
            } else {
                assert(more[i] == before[i] && more[j] == before[j]);
            }
        }
        assert forall|k: K::Id| #[trigger] more.contains(k) <==> ids.contains(k) || k == x by {
            if more.contains(k) {
                let i = more.index_of(k);
                if i < before.len() {
                    assert(before[i] == k);
                    assert(before.contains(k));
                } else {
                    assert(ids[ids.len() - 1] == k);
                }
            }
            if before.contains(k) {
                let i = before.index_of(k);
                assert(more[i] == k);
            }
            if k == last {
                assert(more[more.len() - 1] == k);
            }
        }
    } else {
        assert forall|i: int, j: int| 0 <= i < j < more.len() implies K::before(
            more[i],
            more[j],
        ) by {
            if j == more.len() - 1 {
                assert(ids.contains(ids[ids.len() - 1]));
                K::law_total(x, ids.last());
                if i < ids.len() - 1 {
                    K::law_transitive(ids[i], ids.last(), x);
                }
            }
        }
        assert forall|k: K::Id| #[trigger] more.contains(k) <==> ids.contains(k) || k == x by {
            if more.contains(k) {
                let i = more.index_of(k);
                if i < ids.len() {
                    assert(ids[i] == k);
                }
            }
            if ids.contains(k) {
                let i = ids.index_of(k);
                assert(more[i] == k);
            }
            if k == x {
                assert(more[more.len() - 1] == k);
            }
        }
    }
}

/// Every finite set has an increasing listing.
pub proof fn lemma_sorted_lists<K: OrdKey>(members: Set<K::Id>)
    requires
        members.finite(),
    ensures
        enumerates::<K>(sorted::<K>(members), members),
        sorted::<K>(members).len() == members.len(),
    decreases members.len(),
{
    if members.len() == 0 {
        let none = Seq::<K::Id>::empty();
        assert(members =~= Set::empty());
        assert(enumerates::<K>(none, members));
    } else {
        let x = members.choose();
        let rest = members.remove(x);
        lemma_sorted_lists::<K>(rest);
        let ids = sorted::<K>(rest);
        assert(!ids.contains(x)) by {
            assert(ids.contains(x) <==> rest.contains(x));
        }
        lemma_with_member::<K>(ids, x);
        let more = with_member::<K>(ids, x);
        assert forall|k: K::Id| #[trigger] more.contains(k) <==> members.contains(k) by {
            assert(ids.contains(k) <==> rest.contains(k));
        }
        assert(enumerates::<K>(more, members));
    }
    lemma_listed::<K>(sorted::<K>(members), members);
}

/// A map whose keys are kept in increasing order.
#[derive(Debug, Clone, PartialEq, Eq)]
pub struct OrdMap<K, V> {
    keys: Vec<K>,
    values: Vec<V>,
}

impl<K: OrdKey, V> OrdMap<K, V> {
    /// Key identities in walking order.
    pub closed spec fn ids(&self) -> Seq<K::Id> {
        self.keys@.map_values(|k: K| k.id())
    }

    /// The key stored under each position of the walk.
    pub closed spec fn key_at(&self, i: int) -> K {
        self.keys@[i]
    }

    pub closed spec fn wf(&self) -> bool {
        &&& self.keys@.len() == self.values@.len()
        &&& increasing::<K>(self.ids())
    }

    /// Contents by key identity.
    pub closed spec fn view(&self) -> Map<K::Id, V> {
        Map::new(
            |k: K::Id| self.ids().contains(k),
            |k: K::Id| self.values@[self.ids().index_of(k)],
        )
    }

    /// What every caller may know of a well-formed map.
    pub proof fn lemma_contents(&self)
        requires
            self.wf(),
        ensures
            increasing::<K>(self.ids()),
            forall|k: K::Id| #[trigger] self@.contains_key(k) <==> self.ids().contains(k),
            forall|i: int|
                0 <= i < self.ids().len() ==> self@.contains_key(#[trigger] self.ids()[i]),
            forall|i: int|
                0 <= i < self.ids().len() ==> (#[trigger] self.key_at(i)).id() == self.ids()[i],
            enumerates::<K>(self.ids(), self@.dom()),
            sorted::<K>(self@.dom()) == self.ids(),
            self@.dom().finite(),
    {
        lemma_sorted::<K>(self.ids(), self@.dom());
        lemma_listed::<K>(self.ids(), self@.dom());
    }

    proof fn lemma_at(&self, i: int)
        requires
            self.wf(),
            0 <= i < self.ids().len(),
        ensures
            self@.contains_key(self.ids()[i]),
            self@[self.ids()[i]] == self.values@[i],
    {
        let k = self.ids()[i];
        assert(self.ids().contains(k));
        lemma_increasing_distinct::<K>(self.ids(), i, self.ids().index_of(k));
    }

    proof fn lemma_overwrite(old_map: Self, new_map: Self, i: int, value: V)
        requires
            old_map.wf(),
            0 <= i < old_map.ids().len(),
            new_map.keys == old_map.keys,
            new_map.values@ == old_map.values@.update(i, value),
        ensures
            new_map.wf(),
            new_map.ids() == old_map.ids(),
            new_map@ == old_map@.insert(old_map.ids()[i], value),
    {
        old_map.lemma_at(i);
        assert forall|k: K::Id| new_map.ids().contains(k) implies #[trigger] new_map@[k]
            == old_map@.insert(old_map.ids()[i], value)[k] by {
            let j = new_map.ids().index_of(k);
            if k == old_map.ids()[i] {
                lemma_increasing_distinct::<K>(old_map.ids(), i, j);
            }
        }
        assert(new_map@ =~= old_map@.insert(old_map.ids()[i], value));
    }

    pub fn new() -> (r: Self)
        ensures
            r.wf(),
            r@ == Map::<K::Id, V>::empty(),
            r.ids() == Seq::<K::Id>::empty(),
    {
        let r = OrdMap { keys: Vec::new(), values: Vec::new() };
        proof {
            assert(r.ids() =~= Seq::<K::Id>::empty());
            assert(r@ =~= Map::<K::Id, V>::empty());
        }
        r
    }

    pub fn len(&self) -> (n: usize)
        requires
            self.wf(),
        ensures
            n == self.ids().len(),
    {
        self.keys.len()
    }

    /// Position of the key, or the position at which it belongs.
    fn locate(&self, key: &K) -> (r: (bool, usize))
        requires
            self.wf(),
        ensures
            r.1 <= self.ids().len(),
            r.0 ==> r.1 < self.ids().len() && self.ids()[r.1 as int] == key.id(),
            !r.0 ==> !self.ids().contains(key.id()),
            !r.0 ==> forall|j: int|
                0 <= j < r.1 ==> K::before(#[trigger] self.ids()[j], key.id()),
            !r.0 ==> forall|j: int|
                r.1 <= j < self.ids().len() ==> K::before(key.id(), #[trigger] self.ids()[j]),
    {
        let mut low: usize = 0;
        let mut high: usize = self.keys.len();
        let ghost ids = self.ids();
        while low < high
            invariant
                self.wf(),
                ids == self.ids(),
                ids.len() == self.keys@.len(),
                0 <= low <= high <= ids.len(),
                forall|j: int| 0 <= j < low ==> K::before(#[trigger] ids[j], key.id()),
                forall|j: int| high <= j < ids.len() ==> K::before(key.id(), #[trigger] ids[j]),
            decreases high - low,
        {
            let middle: usize = low + (high - low) / 2;
            assert(ids[middle as int] == self.keys@[middle as int].id());
            match self.keys[middle].order(key) {
                Order::Same => {
                    return (true, middle);
                },
                Order::Before => {
                    proof {
                        assert forall|j: int| 0 <= j < middle + 1 implies K::before(
                            #[trigger] ids[j],
                            key.id(),
                        ) by {
                            if j < middle {
                                K::law_transitive(ids[j], ids[middle as int], key.id());
                            }
                        }
                    }
                    low = middle + 1;
                },
                Order::After => {
                    proof {
                        assert forall|j: int| middle <= j < ids.len() implies K::before(
                            key.id(),
                            #[trigger] ids[j],
                        ) by {
                            if middle < j {
                                K::law_transitive(key.id(), ids[middle as int], ids[j]);
                            }
                        }
                    }
                    high = middle;
                },
            }
        }
        proof {
            if ids.contains(key.id()) {
                K::law_irreflexive(key.id());
            }
        }
        (false, low)
    }

    pub fn contains_key(&self, key: &K) -> (r: bool)
        requires
            self.wf(),
        ensures
            r == self@.contains_key(key.id()),
    {
        let found = self.locate(key);
        proof {
            if found.0 {
                self.lemma_at(found.1 as int);
            }
        }
        found.0
    }

    pub fn get(&self, key: &K) -> (r: Option<&V>)
        requires
            self.wf(),
        ensures
            match r {
                Some(v) => self@.contains_key(key.id()) && *v == self@[key.id()],
                None => !self@.contains_key(key.id()),
            },
    {
        let (found, at) = self.locate(key);
        if found {
            proof {
                self.lemma_at(at as int);
            }
            Some(&self.values[at])
        } else {
            None
        }
    }

    pub fn get_mut(&mut self, key: &K) -> (r: Option<&mut V>)
        requires
            old(self).wf(),
        ensures
            match r {
                Some(v) => {
                    &&& old(self)@.contains_key(key.id())
                    &&& *v == old(self)@[key.id()]
                    &&& final(self).wf()
                    &&& final(self).ids() == old(self).ids()
                    &&& final(self)@ == old(self)@.insert(key.id(), *final(v))
                },
                None => !old(self)@.contains_key(key.id()) && *final(self) == *old(self),
            },
    {
        let (found, at) = self.locate(key);
        if found {
            proof {
                self.lemma_at(at as int);
                let before = *self;
                assert forall|after: Self, value: V|
                    #![trigger after.wf(), before.values@.update(at as int, value)]
                    after.keys == before.keys && after.values@ == before.values@.update(
                        at as int,
                        value,
                    ) implies after.wf() && after.ids() == before.ids() && after@
                    == before@.insert(key.id(), value) by {
                    Self::lemma_overwrite(before, after, at as int, value);
                }
            }
            Some(&mut self.values[at])
        } else {
            None
        }
    }

    /// Inserts the value, replacing the value that the key had.
    pub fn insert(&mut self, key: K, value: V)
        requires
            old(self).wf(),
        ensures
            final(self).wf(),
            final(self)@ == old(self)@.insert(key.id(), value),
            old(self)@.contains_key(key.id()) ==> final(self).ids() == old(self).ids(),
    {
        let (found, at) = self.locate(&key);
        if found {
            self.values.set(at, value);
            proof {
                Self::lemma_overwrite(*old(self), *self, at as int, value);
            }
        } else {
            self.keys.insert(at, key);
            self.values.insert(at, value);
            proof {
                let before = *old(self);
                let k0 = key.id();
                assert(self.ids() =~= before.ids().insert(at as int, k0));
                assert(increasing::<K>(self.ids()));
                assert forall|k: K::Id| #[trigger]
                    self.ids().contains(k) <==> (before.ids().contains(k) || k == k0) by {
                    if before.ids().contains(k) {
                        let j = before.ids().index_of(k);
                        if j < at {
                            assert(self.ids()[j] == k);
                        } else {
                            assert(self.ids()[j + 1] == k);
                        }
                    }
                    if k == k0 {
                        assert(self.ids()[at as int] == k);
                    }
                    if self.ids().contains(k) && k != k0 {
                        let j = self.ids().index_of(k);
                        if j < at {
                            assert(before.ids()[j] == k);
                        } else {
                            assert(before.ids()[j - 1] == k);
                        }
                    }
                }
                assert forall|k: K::Id| #[trigger] self.ids().contains(k) implies self@[k]
                    == before@.insert(k0, value)[k] by {
                    if k == k0 {
                        self.lemma_at(at as int);
                        assert(self.ids()[at as int] == k0);
                    } else {
                        let j = before.ids().index_of(k);
                        before.lemma_at(j);
                        if j < at {
                            self.lemma_at(j);
                        } else {
                            self.lemma_at(j + 1);
                        }
                    }
                }
                assert(self@ =~= before@.insert(k0, value));
            }
        }
    }

    /// Removes the key and returns the value it had.
    pub fn remove(&mut self, key: &K) -> (r: Option<V>)
        requires
            old(self).wf(),
        ensures
            final(self).wf(),
            final(self)@ == old(self)@.remove(key.id()),
            match r {
                Some(v) => old(self)@.contains_key(key.id()) && v == old(self)@[key.id()],
                None => !old(self)@.contains_key(key.id()) && *final(self) == *old(self),
            },
    {
        let (found, at) = self.locate(key);
        if found {
            let ghost before = *old(self);
            proof {
                before.lemma_at(at as int);
            }
            let _ = self.keys.remove(at);
            let value = self.values.remove(at);
            proof {
                let k0 = key.id();
                assert(self.ids() =~= before.ids().remove(at as int));
                assert(increasing::<K>(self.ids()));
                assert forall|k: K::Id| #[trigger]
                    self.ids().contains(k) <==> (before.ids().contains(k) && k != k0) by {
                    if before.ids().contains(k) && k != k0 {
                        let j = before.ids().index_of(k);
                        if j < at {
                            assert(self.ids()[j] == k);
                        } else {
                            assert(self.ids()[j - 1] == k);
                        }
                    }
                    if self.ids().contains(k) {
                        let j = self.ids().index_of(k);
                        let m = if j < at {
                            j
                        } else {
                            j + 1
                        };
                        assert(before.ids()[m] == k);
                        if k == k0 {
                            lemma_increasing_distinct::<K>(before.ids(), m, at as int);
                        }
                    }
                }
                assert forall|k: K::Id| #[trigger] self.ids().contains(k) implies self@[k]
                    == before@[k] by {
                    let j = before.ids().index_of(k);
                    before.lemma_at(j);
                    if j < at {
                        self.lemma_at(j);
                    } else {
                        self.lemma_at(j - 1);
                    }
                }
                assert(self@ =~= before@.remove(k0));
            }
            Some(value)
        } else {
            proof {
                assert(self@ =~= self@.remove(key.id()));
            }
            None
        }
    }

    /// The key at a position of the walk.
    pub fn key(&self, i: usize) -> (r: &K)
        requires
            self.wf(),
            i < self.ids().len(),
        ensures
            *r == self.key_at(i as int),
            r.id() == self.ids()[i as int],
    {
        &self.keys[i]
    }

    /// The value at a position of the walk.
    pub fn value(&self, i: usize) -> (r: &V)
        requires
            self.wf(),
            i < self.ids().len(),
        ensures
            self@.contains_key(self.ids()[i as int]),
            *r == self@[self.ids()[i as int]],
    {
        proof {
            self.lemma_at(i as int);
        }
        &self.values[i]
    }

    /// All keys, in order.
    pub fn to_keys(&self) -> (r: Vec<K>)
        requires
            self.wf(),
        ensures
            r@.len() == self.ids().len(),
            forall|i: int| 0 <= i < r@.len() ==> (#[trigger] r@[i]).id() == self.ids()[i],
            forall|i: int| 0 <= i < r@.len() ==> #[trigger] r@[i] == self.key_at(i),
    {
        let mut r: Vec<K> = Vec::new();
        let mut i: usize = 0;
        while i < self.keys.len()
            invariant
                self.wf(),
                i <= self.keys@.len(),
                r@.len() == i,
                forall|j: int| 0 <= j < i ==> #[trigger] r@[j] == self.keys@[j],
            decreases self.keys@.len() - i,
        {
            r.push(self.keys[i].duplicate());
            i = i + 1;
        }
        r
    }
}

} // verus!
