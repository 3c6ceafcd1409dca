use vstd::prelude::*;

use crate::kvs::{KVS, INIT_LOCK_NAME};
use crate::observers::balancer::{built_from, ObservationBalancer};
use crate::strings::lemma_prefix_step;
use crate::observers::events::{
    events_view, push_unique, ControlEventView, TradeObserverControlEvent,
};

verus! {

/// Brings the observer nodes of an exchange in line with the listed symbols:
/// under the initialization lock, it publishes the symbol differences
/// together with the rebalancing events.
pub struct Init<C> {
    balancer: ObservationBalancer<C>,
    dlock: KVS<C>,
}

impl<C: Clone> Init<C> {
    /// An initializer on the store `kvs`: its balancer works on a clone of
    /// the store, and its lock is kept under `INIT_LOCK_NAME` through `kvs`.
    pub fn new(kvs: C) -> (init: Self)
        ensures
            exists|c: C| cloned(kvs, c) && #[trigger] built_from(init.balancer_spec(), c),
            init.dlock_spec().channel_name_spec() == INIT_LOCK_NAME@,
            init.dlock_spec().connection_spec() == kvs,
    {
        let shared = kvs.clone();
        let ghost witness = shared;
        let balancer = ObservationBalancer::new(shared);
        assert(cloned(kvs, witness) && built_from(balancer, witness));
        let dlock = KVS::new(kvs, String::from_str(INIT_LOCK_NAME));
        let init = Init { balancer, dlock };
        assert(built_from(init.balancer_spec(), witness));
        init
    }
}

impl<C> Init<C> {
    pub closed spec fn balancer_spec(&self) -> ObservationBalancer<C> {
        self.balancer
    }

    pub closed spec fn dlock_spec(&self) -> KVS<C> {
        self.dlock
    }

    /// The balancer that the initializer consults.
    pub fn balancer(&self) -> (balancer: &ObservationBalancer<C>)
        ensures
            *balancer == self.balancer_spec(),
    {
        &self.balancer
    }

    /// The handle on the initialization locks.
    pub fn dlock(&self) -> (dlock: &KVS<C>)
        ensures
            *dlock == self.dlock_spec(),
    {
        &self.dlock
    }

    /// The control events to publish: the union of the symbol differences
    /// and the rebalancing events, each event once.
    pub fn controls_to_publish(
        &self,
        diff: &Vec<TradeObserverControlEvent>,
        balanced: &Vec<TradeObserverControlEvent>,
    ) -> (events: Vec<TradeObserverControlEvent>)
        ensures
            events_view(events@).no_duplicates(),
            forall|e: ControlEventView| #[trigger]
                events_view(events@).contains(e) <==> (events_view(diff@).contains(e)
                    || events_view(balanced@).contains(e)),
    {
        let mut events: Vec<TradeObserverControlEvent> = Vec::new();
        for i in 0..diff.len()
            invariant
                events_view(events@).no_duplicates(),
                forall|e: ControlEventView| #[trigger]
                    events_view(events@).contains(e) <==> events_view(diff@).subrange(
                        0,
                        i as int,
                    ).contains(e),
        {
            push_unique(&mut events, diff[i].clone_event());
            proof {
                lemma_prefix_step(events_view(diff@), i as int);
            }
        }
        assert(events_view(diff@).subrange(0, diff@.len() as int) == events_view(diff@));
        for i in 0..balanced.len()
            invariant
                events_view(events@).no_duplicates(),
                forall|e: ControlEventView| #[trigger]
                    events_view(events@).contains(e) <==> (events_view(diff@).contains(e)
                        || events_view(balanced@).subrange(0, i as int).contains(e)),
        {
            push_unique(&mut events, balanced[i].clone_event());
            proof {
                lemma_prefix_step(events_view(balanced@), i as int);
            }
        }
        assert(events_view(balanced@).subrange(0, balanced@.len() as int) == events_view(balanced@));
        events
    }
}

} // verus!
