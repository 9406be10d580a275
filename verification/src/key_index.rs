//! An index from a key to the subscriptions filed under it.

use vstd::prelude::*;

use crate::ord_map::{enumerates, lemma_sorted, sorted, OrdMap};
use crate::order::OrdKey;
use crate::transport::{SubscriptionIdentity, SubscriptionKey};

verus! {

/// Members of an index entry, as a mathematical set.
pub open spec fn filed_under<I>(
    pairs: Set<(I, SubscriptionIdentity)>,
    key: I,
) -> Set<SubscriptionIdentity> {
    Set::new(|k: SubscriptionIdentity| pairs.contains((key, k)))
}

/// `ids` lists subscriptions in increasing order.
pub open spec fn lists(ids: Seq<SubscriptionIdentity>, members: Set<SubscriptionIdentity>) -> bool {
    enumerates::<SubscriptionKey>(ids, members)
}

/// Subscriptions in increasing order.
pub open spec fn in_order(members: Set<SubscriptionIdentity>) -> Seq<SubscriptionIdentity> {
    sorted::<SubscriptionKey>(members)
}

/// A set of subscriptions has one increasing listing.
pub proof fn lemma_in_order(ids: Seq<SubscriptionIdentity>, members: Set<SubscriptionIdentity>)
    requires
        lists(ids, members),
    ensures
        in_order(members) == ids,
{
    lemma_sorted::<SubscriptionKey>(ids, members);
}

/// Identities of subscription keys.
pub open spec fn ids_of(keys: Seq<SubscriptionKey>) -> Seq<SubscriptionIdentity> {
    keys.map_values(|k: SubscriptionKey| k.id())
}

/// Subscriptions by key. No entry is empty.
pub struct KeyIndex<K> {
    sets: OrdMap<K, OrdMap<SubscriptionKey, ()>>,
}

impl<K: OrdKey> KeyIndex<K> {
    /// Which subscription is filed under which key.
    pub closed spec fn view(&self) -> Set<(K::Id, SubscriptionIdentity)> {
        Set::new(
            |pair: (K::Id, SubscriptionIdentity)|
                self.sets@.contains_key(pair.0) && self.sets@[pair.0]@.contains_key(pair.1),
        )
    }

    pub closed spec fn wf(&self) -> bool {
        &&& self.sets.wf()
        &&& forall|k: K::Id| #[trigger]
            self.sets@.contains_key(k) ==> self.sets@[k].wf() && self.sets@[k].ids().len() > 0
    }

    pub fn new() -> (r: Self)
        ensures
            r.wf(),
            r@ == Set::<(K::Id, SubscriptionIdentity)>::empty(),
    {
        let r = KeyIndex { sets: OrdMap::new() };
        proof {
            assert(r@ =~= Set::<(K::Id, SubscriptionIdentity)>::empty());
        }
        r
    }

    pub fn insert(&mut self, key: &K, member: &SubscriptionKey)
        requires
            old(self).wf(),
        ensures
            final(self).wf(),
            final(self)@ == old(self)@.insert((key.id(), member.id())),
    {
        let ghost start = *self;
        match self.sets.get_mut(key) {
            Some(set) => {
                set.insert(member.clone(), ());
                proof {
                    set.lemma_contents();
                    assert(set@.contains_key(member.id()));
                }
            },
            None => {
                let mut set: OrdMap<SubscriptionKey, ()> = OrdMap::new();
                set.insert(member.clone(), ());
                proof {
                    set.lemma_contents();
                    assert(set@.contains_key(member.id()));
                }
                self.sets.insert(key.duplicate(), set);
            },
        }
        proof {
            assert(self@ =~= start@.insert((key.id(), member.id())));
        }
    }

    pub fn remove(&mut self, key: &K, member: &SubscriptionKey)
        requires
            old(self).wf(),
        ensures
            final(self).wf(),
            final(self)@ == old(self)@.remove((key.id(), member.id())),
    {
        let ghost start = *self;
        let mut emptied = false;
        match self.sets.get_mut(key) {
            Some(set) => {
                let _ = set.remove(member);
                emptied = set.len() == 0;
                proof {
                    set.lemma_contents();
                    if emptied {
                        assert(forall|k: SubscriptionIdentity| !set@.contains_key(k));
                    }
                }
            },
            None => {},
        }
        let ghost mid = *self;
        proof {
            assert(mid@ =~= start@.remove((key.id(), member.id())));
        }
        if emptied {
            let _ = self.sets.remove(key);
            proof {
                assert forall|pair: (K::Id, SubscriptionIdentity)| #[trigger]
                    mid@.contains(pair) implies pair.0 != key.id() by {
                    assert(!mid.sets@[key.id()]@.contains_key(pair.1) || pair.0 != key.id());
                }
                assert(self@ =~= mid@);
            }
        }
    }

    /// Members filed under the key, in order.
    pub fn members(&self, key: &K) -> (r: Vec<SubscriptionKey>)
        requires
            self.wf(),
        ensures
            lists(ids_of(r@), filed_under(self@, key.id())),
    {
        match self.sets.get(key) {
            Some(set) => {
                let r = set.to_keys();
                proof {
                    set.lemma_contents();
                    assert(ids_of(r@) =~= set.ids());
                }
                r
            },
            None => {
                let r: Vec<SubscriptionKey> = Vec::new();
                proof {
                    assert(ids_of(r@) =~= Seq::<SubscriptionIdentity>::empty());
                }
                r
            },
        }
    }

    /// Removes the entry of the key and returns what was filed under it.
    pub fn take(&mut self, key: &K) -> (r: Vec<SubscriptionKey>)
        requires
            old(self).wf(),
        ensures
            final(self).wf(),
            lists(ids_of(r@), filed_under(old(self)@, key.id())),
            forall|k: K::Id, member: SubscriptionIdentity| #[trigger]
                final(self)@.contains((k, member)) <==> old(self)@.contains((k, member)) && k
                    != key.id(),
    {
        let r = self.members(key);
        let _ = self.sets.remove(key);
        r
    }
}

} // verus!
