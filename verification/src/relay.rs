//! Ownership of cross-worker relays.
//!
//! A relay is shared by every subscription with the same source and target
//! worker. It stays active while any owner wants it. The first owner installs
//! it, later changes of the aggregate activity are announced, and removing the
//! last owner releases it.

use vstd::prelude::*;

use crate::ids::{same, MediaWorkerId};
use crate::ord_map::OrdMap;
use crate::order::OrdKey;
use crate::transport::{
    RelayIdentity, RelayRouteActivity, RelayRouteKey, SourceIdentity, SubscriptionIdentity,
    SubscriptionKey, TransportRelayRouteAction, TransportRelayRouteEffect, TransportSourceKey,
};

verus! {

/// A subscription's share in a relay.
#[derive(Debug, PartialEq, Eq)]
pub struct RouteRelay {
    pub route: RelayRouteKey,
    pub activity: RelayRouteActivity,
}

impl Clone for RouteRelay {
    fn clone(&self) -> (r: Self)
        ensures
            r == *self,
    {
        RouteRelay { route: self.route.clone(), activity: self.activity }
    }
}

impl RouteRelay {
    pub fn same_share(&self, other: &Self) -> (r: bool)
        ensures
            r == (self.route.id() == other.route.id() && self.activity == other.activity),
    {
        same(&self.route, &other.route) && self.activity == other.activity
    }
}

/// Owners of one relay and whether each wants it.
pub type Owners = Map<SubscriptionIdentity, RelayRouteActivity>;

/// All relays and their owners.
pub type Relays = Map<RelayIdentity, Owners>;

/// Activity of a relay with these owners; a relay without owners has none.
pub open spec fn aggregate(owners: Owners) -> Option<RelayRouteActivity> {
    if owners == Map::<SubscriptionIdentity, RelayRouteActivity>::empty() {
        None
    } else {
        Some(RelayRouteActivity::of(wanted(owners)))
    }
}

/// Some owner wants the relay.
pub open spec fn wanted(owners: Owners) -> bool {
    exists|k: SubscriptionIdentity|
        #[trigger] owners.contains_key(k) && owners[k] == RelayRouteActivity::Active
}

/// What takes a relay from one aggregate to another.
pub open spec fn relay_effects(
    route: RelayRouteKey,
    before: Option<RelayRouteActivity>,
    after: Option<RelayRouteActivity>,
) -> Seq<TransportRelayRouteEffect> {
    match after {
        None => seq![relay_effect(route, TransportRelayRouteAction::Release)],
        Some(activity) => {
            let install = if before is None {
                seq![relay_effect(route, TransportRelayRouteAction::Install)]
            } else {
                seq![]
            };
            let held = match before {
                Some(activity) => activity,
                None => RelayRouteActivity::Inactive,
            };
            let change = if held != activity {
                seq![relay_effect(route, TransportRelayRouteAction::SetActivity(activity))]
            } else {
                seq![]
            };
            install + change
        },
    }
}

pub open spec fn relay_effect(
    route: RelayRouteKey,
    action: TransportRelayRouteAction,
) -> TransportRelayRouteEffect {
    TransportRelayRouteEffect {
        source: route.source,
        target_media_worker_id: route.target_worker,
        action,
    }
}

pub open spec fn owners_of(relays: Relays, relay: RelayIdentity) -> Owners {
    if relays.contains_key(relay) {
        relays[relay]
    } else {
        Map::empty()
    }
}

/// The relays once `key` holds `relay`.
pub open spec fn with_owner(relays: Relays, key: SubscriptionIdentity, relay: RouteRelay) -> Relays {
    let id = relay.route.id();
    relays.insert(id, owners_of(relays, id).insert(key, relay.activity))
}

pub open spec fn with_owner_effects(
    relays: Relays,
    key: SubscriptionIdentity,
    relay: RouteRelay,
) -> Seq<TransportRelayRouteEffect> {
    let owners = owners_of(relays, relay.route.id());
    relay_effects(relay.route, aggregate(owners), aggregate(owners.insert(key, relay.activity)))
}

/// Whether `key` has a share in `relay`.
pub open spec fn owns(relays: Relays, key: SubscriptionIdentity, relay: RelayIdentity) -> bool {
    relays.contains_key(relay) && relays[relay].contains_key(key)
}

/// The relays once `key` has given up its share in `relay`.
pub open spec fn without_owner(
    relays: Relays,
    key: SubscriptionIdentity,
    relay: RelayIdentity,
) -> Relays {
    if !owns(relays, key, relay) {
        relays
    } else if aggregate(relays[relay].remove(key)) is None {
        relays.remove(relay)
    } else {
        relays.insert(relay, relays[relay].remove(key))
    }
}

pub open spec fn without_owner_effects(
    relays: Relays,
    key: SubscriptionIdentity,
    relay: RelayRouteKey,
) -> Seq<TransportRelayRouteEffect> {
    let id = relay.id();
    if !owns(relays, key, id) {
        seq![]
    } else {
        relay_effects(relay, aggregate(relays[id]), aggregate(relays[id].remove(key)))
    }
}

fn effects_between(
    route: RelayRouteKey,
    before: Option<RelayRouteActivity>,
    after: Option<RelayRouteActivity>,
) -> (r: Vec<TransportRelayRouteEffect>)
    ensures
        r@ == relay_effects(route, before, after),
{
    let mut effects: Vec<TransportRelayRouteEffect> = Vec::new();
    match after {
        None => {
            effects.push(
                TransportRelayRouteEffect {
                    source: route.source,
                    target_media_worker_id: route.target_worker,
                    action: TransportRelayRouteAction::Release,
                },
            );
        },
        Some(activity) => {
            let held = match before {
                Some(held) => held,
                None => {
                    effects.push(
                        TransportRelayRouteEffect {
                            source: route.source.clone(),
                            target_media_worker_id: route.target_worker,
                            action: TransportRelayRouteAction::Install,
                        },
                    );
                    RelayRouteActivity::Inactive
                },
            };
            if held != activity {
                effects.push(
                    TransportRelayRouteEffect {
                        source: route.source,
                        target_media_worker_id: route.target_worker,
                        action: TransportRelayRouteAction::SetActivity(activity),
                    },
                );
            }
        },
    }
    proof {
        assert(effects@ =~= relay_effects(route, before, after));
    }
    effects
}

fn aggregate_of(owners: &OrdMap<SubscriptionKey, RelayRouteActivity>) -> (r: Option<
    RelayRouteActivity,
>)
    requires
        owners.wf(),
    ensures
        r == aggregate(owners@),
        r is None <==> owners.ids().len() == 0,
{
    let mut any = false;
    let mut i: usize = 0;
    let count: usize = owners.len();
    proof {
        owners.lemma_contents();
        if count > 0 {
            assert(owners@.contains_key(owners.ids()[0]));
        } else {
            assert(owners@ =~= Map::<SubscriptionIdentity, RelayRouteActivity>::empty());
        }
    }
    while i < count
        invariant
            owners.wf(),
            count == owners.ids().len(),
            i <= count,
            any <==> exists|j: int|
                0 <= j < i && owners@[#[trigger] owners.ids()[j]] == RelayRouteActivity::Active,
        decreases count - i,
    {
        if owners.value(i).is_active() {
            any = true;
        }
        i = i + 1;
    }
    proof {
        owners.lemma_contents();
        if any {
            let j = choose|j: int|
                0 <= j < count && owners@[#[trigger] owners.ids()[j]] == RelayRouteActivity::Active;
            assert(owners@.contains_key(owners.ids()[j]));
        }
        if wanted(owners@) {
            let k = choose|k: SubscriptionIdentity|
                #[trigger] owners@.contains_key(k) && owners@[k] == RelayRouteActivity::Active;
            assert(owners.ids()[owners.ids().index_of(k)] == k);
        }
    }
    if count == 0 {
        None
    } else {
        Some(RelayRouteActivity::from_active(any))
    }
}

/// Relays of a room and the subscriptions that hold them.
pub struct RelayTable {
    relays: OrdMap<RelayRouteKey, OrdMap<SubscriptionKey, RelayRouteActivity>>,
}

impl RelayTable {
    pub closed spec fn view(&self) -> Relays {
        self.relays@.map_values(|owners: OrdMap<SubscriptionKey, RelayRouteActivity>| owners@)
    }

    pub closed spec fn wf(&self) -> bool {
        &&& self.relays.wf()
        &&& forall|k: RelayIdentity| #[trigger]
            self.relays@.contains_key(k) ==> self.relays@[k].wf() && self.relays@[k].ids().len()
                > 0
    }

    pub fn new() -> (r: Self)
        ensures
            r.wf(),
            r@ == Map::<RelayIdentity, Owners>::empty(),
    {
        let r = RelayTable { relays: OrdMap::new() };
        proof {
            assert(r@ =~= Map::<RelayIdentity, Owners>::empty());
        }
        r
    }

    /// A relay of the table has an owner.
    pub proof fn lemma_owned(&self, relay: RelayIdentity)
        requires
            self.wf(),
            self@.contains_key(relay),
        ensures
            exists|k: SubscriptionIdentity| #[trigger] self@[relay].contains_key(k),
    {
        let owners = self.relays@[relay];
        owners.lemma_contents();
        assert(self@[relay].contains_key(owners.ids()[0]));
    }

    /// Gives `key` a share in `relay`, creating the relay where it is missing.
    pub fn add_owner(&mut self, key: &SubscriptionKey, relay: &RouteRelay) -> (r: Vec<
        TransportRelayRouteEffect,
    >)
        requires
            old(self).wf(),
        ensures
            final(self).wf(),
            final(self)@ == with_owner(old(self)@, key.id(), *relay),
            r@ == with_owner_effects(old(self)@, key.id(), *relay),
    {
        let ghost id = relay.route.id();
        let ghost start = self@;
        match self.relays.get_mut(&relay.route) {
            Some(owners) => {
                let before = aggregate_of(owners);
                owners.insert(key.clone(), relay.activity);
                let after = aggregate_of(owners);
                proof {
                    owners.lemma_contents();
                    assert(owners@.contains_key(key.id()));
                }
                let effects = effects_between(relay.route.clone(), before, after);
                proof {
                    assert(self@ =~= with_owner(start, key.id(), *relay));
                }
                effects
            },
            None => {
                let mut owners: OrdMap<SubscriptionKey, RelayRouteActivity> = OrdMap::new();
                owners.insert(key.clone(), relay.activity);
                let after = aggregate_of(&owners);
                proof {
                    owners.lemma_contents();
                    assert(owners@.contains_key(key.id()));
                }
                self.relays.insert(relay.route.clone(), owners);
                proof {
                    assert(self@ =~= with_owner(start, key.id(), *relay));
                }
                effects_between(relay.route.clone(), None, after)
            },
        }
    }

    /// Records the activity of a share; a relay that is missing stays missing.
    pub fn set_owner(&mut self, key: &SubscriptionKey, relay: &RouteRelay) -> (r: Vec<
        TransportRelayRouteEffect,
    >)
        requires
            old(self).wf(),
        ensures
            final(self).wf(),
            old(self)@.contains_key(relay.route.id()) ==> final(self)@ == with_owner(
                old(self)@,
                key.id(),
                *relay,
            ) && r@ == with_owner_effects(old(self)@, key.id(), *relay),
            !old(self)@.contains_key(relay.route.id()) ==> final(self)@ == old(self)@ && r@
                == Seq::<TransportRelayRouteEffect>::empty(),
    {
        if self.relays.contains_key(&relay.route) {
            self.add_owner(key, relay)
        } else {
            Vec::new()
        }
    }

    /// Takes back the share of `key` in `relay`.
    pub fn release_owner(&mut self, key: &SubscriptionKey, relay: &RelayRouteKey) -> (r: Vec<
        TransportRelayRouteEffect,
    >)
        requires
            old(self).wf(),
        ensures
            final(self).wf(),
            final(self)@ == without_owner(old(self)@, key.id(), relay.id()),
            r@ == without_owner_effects(old(self)@, key.id(), *relay),
    {
        let ghost id = relay.id();
        let ghost start = self@;
        let ghost table = self.relays@;
        let (before, after) = match self.relays.get_mut(relay) {
            None => {
                return Vec::new();
            },
            Some(owners) => {
                let before = aggregate_of(owners);
                match owners.remove(key) {
                    None => {
                        proof {
                            assert(self.relays@ =~= table);
                        }
                        return Vec::new();
                    },
                    Some(_) => {},
                }
                let after = aggregate_of(owners);
                (before, after)
            },
        };
        if after.is_none() {
            let _ = self.relays.remove(relay);
        }
        proof {
            assert(self@ =~= without_owner(start, key.id(), id));
        }
        effects_between(relay.clone(), before, after)
    }

    /// Workers to which `source` is relayed, in increasing order.
    pub fn target_workers(&self, source: &TransportSourceKey) -> (r: Vec<MediaWorkerId>)
        requires
            self.wf(),
        ensures
            relayed_to(self@, source.id(), r@),
    {
        let mut r: Vec<MediaWorkerId> = Vec::new();
        let mut i: usize = 0;
        let count: usize = self.relays.len();
        let ghost ids = self.relays.ids();
        while i < count
            invariant
                self.wf(),
                ids == self.relays.ids(),
                count == ids.len(),
                i <= count,
                forall|a: int, b: int| 0 <= a < b < r@.len() ==> r@[a].0 < r@[b].0,
                forall|a: int|
                    0 <= a < r@.len() ==> exists|j: int|
                        0 <= j < i && #[trigger] ids[j] == (RelayIdentity {
                            source: source.id(),
                            target_worker: #[trigger] r@[a],
                        }),
                forall|j: int|
                    0 <= j < i && (#[trigger] ids[j]).source == source.id() ==> r@.contains(
                        ids[j].target_worker,
                    ),
            decreases count - i,
        {
            let relay = self.relays.key(i);
            let ghost earlier = r@;
            proof {
                self.relays.lemma_contents();
            }
            if same(&relay.source, source) {
                proof {
                    assert forall|a: int| 0 <= a < r@.len() implies (#[trigger] r@[a]).0
                        < relay.target_worker.0 by {
                        let j = choose|j: int|
                            0 <= j < i && #[trigger] ids[j] == (RelayIdentity {
                                source: source.id(),
                                target_worker: r@[a],
                            });
                        assert(RelayRouteKey::before(ids[j], ids[i as int]));
                    }
                }
                r.push(relay.target_worker);
                proof {
                    assert(r@[r@.len() - 1] == relay.target_worker);
                    assert(ids[i as int] == (RelayIdentity {
                        source: source.id(),
                        target_worker: r@[r@.len() - 1],
                    }));
                }
            }
            proof {
                assert forall|j: int|
                    0 <= j < i + 1 && (#[trigger] ids[j]).source
                        == source.id() implies r@.contains(ids[j].target_worker) by {
                    if j < i {
                        let a = earlier.index_of(ids[j].target_worker);
                        assert(r@[a] == ids[j].target_worker);
                    }
                }
                assert forall|a: int| 0 <= a < r@.len() implies exists|j: int|
                    0 <= j < i + 1 && #[trigger] ids[j] == (RelayIdentity {
                        source: source.id(),
                        target_worker: #[trigger] r@[a],
                    }) by {
                    if a < earlier.len() {
                        assert(r@[a] == earlier[a]);
                    }
                }
            }
            i = i + 1;
        }
        proof {
            self.relays.lemma_contents();
            assert forall|w: MediaWorkerId| r@.contains(w) <==> #[trigger] self@.contains_key(
                RelayIdentity { source: source.id(), target_worker: w },
            ) by {
                let id = RelayIdentity { source: source.id(), target_worker: w };
                if r@.contains(w) {
                    let a = r@.index_of(w);
                    let j = choose|j: int|
                        0 <= j < i && #[trigger] ids[j] == (RelayIdentity {
                            source: source.id(),
                            target_worker: r@[a],
                        });
                    assert(self.relays@.contains_key(ids[j]));
                }
                if self@.contains_key(id) {
                    assert(self.relays@.contains_key(id));
                    let j = ids.index_of(id);
                    assert(ids[j] == id);
                }
            }
        }
        r
    }
}

/// `workers` lists the workers to which `source` is relayed, in increasing order.
pub open spec fn relayed_to(
    relays: Relays,
    source: SourceIdentity,
    workers: Seq<MediaWorkerId>,
) -> bool {
    &&& forall|a: int, b: int| 0 <= a < b < workers.len() ==> workers[a].0 < workers[b].0
    &&& forall|w: MediaWorkerId|
        workers.contains(w) <==> #[trigger] relays.contains_key(
            RelayIdentity { source, target_worker: w },
        )
}

} // verus!
