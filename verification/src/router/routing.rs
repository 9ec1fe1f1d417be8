//! Route selection and load balancing.
//!
//! [`Router`] holds a set of endpoints, tracks each one's health, and picks
//! which should serve the next request. Failing endpoints are withdrawn
//! automatically and probed for recovery.

use crate::ratio::Ratio;
use crate::router::health;
use crate::router::health::{Health, HealthPolicy, HealthState, HealthTracker};
use crate::text;
use crate::time::Instant;
use vstd::prelude::*;

verus! {

/// How the router chooses among healthy endpoints.
#[derive(Debug, Clone, Copy, PartialEq, Eq, Hash, Structural)]
#[non_exhaustive]
pub enum Strategy {
    /// Visit endpoints in order, one after another. The default.
    RoundRobin,
    /// Visit endpoints in proportion to their weight.
    WeightedRoundRobin,
    /// Choose the endpoint with the fewest requests in flight.
    LeastConnections,
}

impl Strategy {
    /// The name of the strategy.
    pub open spec fn text(self) -> Seq<char> {
        match self {
            Strategy::RoundRobin => "round-robin"@,
            Strategy::WeightedRoundRobin => "weighted-round-robin"@,
            Strategy::LeastConnections => "least-connections"@,
        }
    }

    /// Returns the name of the strategy.
    pub fn to_string(&self) -> (s: String)
        ensures
            s@ == self.text(),
    {
        match self {
            Strategy::RoundRobin => "round-robin".to_owned(),
            Strategy::WeightedRoundRobin => "weighted-round-robin".to_owned(),
            Strategy::LeastConnections => "least-connections".to_owned(),
        }
    }
}

impl Default for Strategy {
    fn default() -> (s: Strategy)
        ensures
            s == Strategy::RoundRobin,
    {
        Strategy::RoundRobin
    }
}

/// Identifies an endpoint within one router.
#[derive(Debug, Clone, Copy, PartialEq, Eq, PartialOrd, Ord, Hash, Structural)]
pub struct EndpointId {
    index: usize,
}

impl EndpointId {
    /// The identifier as a number.
    pub closed spec fn number(self) -> usize {
        self.index
    }

    /// Two identifiers with the same number are the same.
    pub proof fn same_number(a: EndpointId, b: EndpointId)
        ensures
            a.number() == b.number() <==> a == b,
    {
    }

    /// Returns the identifier as an index.
    pub fn get(self) -> (n: usize)
        ensures
            n == self.number(),
    {
        self.index
    }

    /// Returns the identifier in writing.
    pub fn to_string(&self) -> (s: String)
        ensures
            s@ == "endpoint#"@ + text::decimal(self.number() as nat),
    {
        let mut s = "endpoint#".to_owned();
        text::push_decimal(&mut s, self.index as u128);
        s
    }
}

/// One routable destination.
#[derive(Debug, Clone)]
pub struct Endpoint<T> {
    id: EndpointId,
    address: T,
    weight: u32,
    in_flight: u32,
    health: HealthTracker,
    /// A recovery probe was sent and has not been reported on yet.
    probing: bool,
}

/// What is known of one destination.
pub struct EndpointState<T> {
    /// The identifier.
    pub id: EndpointId,
    /// Where it leads.
    pub address: T,
    /// The relative capacity.
    pub weight: u32,
    /// Requests begun and not finished.
    pub in_flight: u32,
    /// Its health.
    pub health: HealthState,
    /// A recovery probe was sent and has not been reported on yet.
    pub probing: bool,
}

impl<T> EndpointState<T> {
    /// It may serve ordinary traffic.
    pub open spec fn available(self, now: Instant) -> bool {
        self.health.health(now) is Healthy
    }

    /// It is due a recovery probe, and none is under way.
    pub open spec fn due_probe(self, now: Instant) -> bool {
        self.health.health(now) is Recovering && !self.probing
    }

    /// It carries less load than `other`: fewer requests in flight for its
    /// weight, or as many at a higher weight, or both alike at a lower
    /// identifier.
    pub open spec fn lighter_than(self, other: EndpointState<T>) -> bool {
        let mine = self.in_flight * other.weight;
        let theirs = other.in_flight * self.weight;
        ||| mine < theirs
        ||| mine == theirs && self.weight > other.weight
        ||| mine == theirs && self.weight == other.weight && self.id.number() < other.id.number()
    }
}

impl<T> View for Endpoint<T> {
    type V = EndpointState<T>;

    closed spec fn view(&self) -> EndpointState<T> {
        EndpointState {
            id: self.id,
            address: self.address,
            weight: self.weight,
            in_flight: self.in_flight,
            health: self.health@,
            probing: self.probing,
        }
    }
}

impl<T> Endpoint<T> {
    /// Returns this endpoint's identifier.
    pub fn id(&self) -> (id: EndpointId)
        ensures
            id == self@.id,
    {
        self.id
    }

    /// Returns the address or descriptor this endpoint routes to.
    pub fn address(&self) -> (a: &T)
        ensures
            *a == self@.address,
    {
        &self.address
    }

    /// Returns the relative capacity weight.
    pub fn weight(&self) -> (w: u32)
        ensures
            w == self@.weight,
    {
        self.weight
    }

    /// Returns how many requests are currently in flight.
    pub fn in_flight(&self) -> (n: u32)
        ensures
            n == self@.in_flight,
    {
        self.in_flight
    }

    /// Returns the health state as of `now`.
    pub fn health(&self, now: Instant) -> (h: Health)
        ensures
            h == self@.health.health(now),
    {
        self.health.health(now)
    }

    /// Returns the fraction of requests to this endpoint that succeeded.
    pub fn success_ratio(&self) -> (r: Ratio)
        requires
            self@.health.total_successes + self@.health.total_failures <= u64::MAX,
        ensures
            r == health::success_share(self@.health),
    {
        self.health.success_ratio()
    }
}

/// A snapshot of router activity.
#[derive(Debug, Clone, Copy, PartialEq, Eq, Default)]
pub struct RouterStats {
    /// Endpoints registered.
    pub endpoints: usize,
    /// Endpoints currently able to serve traffic.
    pub healthy: usize,
    /// Endpoints currently withdrawn.
    pub withdrawn: usize,
    /// Selections served.
    pub selections: u64,
    /// Selections that found no usable endpoint.
    pub exhausted: u64,
    /// Recovery probes issued.
    pub probes: u64,
}

impl RouterStats {
    /// Returns `true` if no endpoint can currently serve traffic.
    pub fn is_exhausted(&self) -> (r: bool)
        ensures
            r == (self.healthy == 0),
    {
        self.healthy == 0
    }
}

/// What a router knows.
#[verifier::ext_equal]
pub struct RouterState<T> {
    /// The endpoints, in the order in which they were added.
    pub endpoints: Seq<EndpointState<T>>,
    /// How it chooses.
    pub strategy: Strategy,
    /// How it withdraws and restores.
    pub policy: HealthPolicy,
    /// Where the next round starts.
    pub cursor: nat,
    /// How many more turns the endpoint at the cursor has, under weighted round
    /// robin.
    pub credit: u32,
    /// Selections served.
    pub selections: u64,
    /// Selections that found no usable endpoint.
    pub exhausted: u64,
    /// Recovery probes issued.
    pub probes: u64,
    /// The number of the next identifier.
    pub next_id: usize,
}

/// `i` is the first endpoint that is due a probe.
pub open spec fn first_due<T>(eps: Seq<EndpointState<T>>, now: Instant, i: int) -> bool {
    &&& 0 <= i < eps.len()
    &&& eps[i].due_probe(now)
    &&& forall|j: int| 0 <= j < i ==> !(#[trigger] eps[j]).due_probe(now)
}

/// The place that lies `step` places after the cursor, going round.
pub open spec fn place(cursor: nat, step: int, count: nat) -> int {
    if cursor + step < count {
        cursor + step
    } else {
        cursor + step - count
    }
}

/// The nearest available endpoint, going round from the cursor, lies `step`
/// places on.
pub open spec fn nearest<T>(
    eps: Seq<EndpointState<T>>,
    now: Instant,
    cursor: nat,
    step: int,
) -> bool {
    &&& 0 <= step < eps.len()
    &&& eps[place(cursor, step, eps.len())].available(now)
    &&& forall|k: int|
        0 <= k < step ==> !(#[trigger] eps[place(cursor, k, eps.len())]).available(now)
}

/// `i` is the available endpoint that carries the least load.
pub open spec fn least_loaded<T>(eps: Seq<EndpointState<T>>, now: Instant, i: int) -> bool {
    &&& 0 <= i < eps.len()
    &&& eps[i].available(now)
    &&& forall|j: int|
        0 <= j < eps.len() && j != i && (#[trigger] eps[j]).available(now) ==> eps[i].lighter_than(
            eps[j],
        )
}

/// Some endpoint can serve ordinary traffic.
pub open spec fn some_available<T>(eps: Seq<EndpointState<T>>, now: Instant) -> bool {
    exists|i: int| 0 <= i < eps.len() && (#[trigger] eps[i]).available(now)
}

/// Some endpoint is due a probe.
pub open spec fn some_due<T>(eps: Seq<EndpointState<T>>, now: Instant) -> bool {
    exists|i: int| 0 <= i < eps.len() && (#[trigger] eps[i]).due_probe(now)
}

/// How many endpoints can serve ordinary traffic.
pub open spec fn count_available<T>(eps: Seq<EndpointState<T>>, now: Instant) -> nat
    decreases eps.len(),
{
    if eps.len() == 0 {
        0
    } else {
        count_available(eps.drop_last(), now) + if eps.last().available(now) {
            1nat
        } else {
            0
        }
    }
}

impl<T> RouterState<T> {
    /// A router without endpoints.
    pub open spec fn empty(strategy: Strategy, policy: HealthPolicy) -> RouterState<T> {
        RouterState {
            endpoints: Seq::empty(),
            strategy,
            policy,
            cursor: 0,
            credit: 0,
            selections: 0,
            exhausted: 0,
            probes: 0,
            next_id: 0,
        }
    }

    /// Identifiers rise from endpoint to endpoint and none is given out twice,
    /// every weight counts, and the cursor stands on an endpoint.
    pub open spec fn wf(self) -> bool {
        &&& forall|i: int, j: int|
            0 <= i < j < self.endpoints.len() ==> (#[trigger] self.endpoints[i]).id.number() < (
            #[trigger] self.endpoints[j]).id.number()
        &&& forall|i: int|
            0 <= i < self.endpoints.len() ==> (#[trigger] self.endpoints[i]).id.number()
                < self.next_id && self.endpoints[i].weight >= 1
        &&& self.cursor < self.endpoints.len() || (self.endpoints.len() == 0 && self.cursor == 0)
    }

    /// The statistics have room for one more selection.
    pub open spec fn can_count(self) -> bool {
        self.selections < u64::MAX && self.exhausted < u64::MAX && self.probes < u64::MAX
    }

    /// The endpoint at `i` has this identifier.
    pub open spec fn has_at(self, id: EndpointId, i: int) -> bool {
        0 <= i < self.endpoints.len() && self.endpoints[i].id == id
    }

    /// Where the endpoint with this identifier stands, if it is registered.
    pub open spec fn position(self, id: EndpointId) -> Option<int> {
        if exists|i: int| self.has_at(id, i) {
            Some(choose|i: int| self.has_at(id, i))
        } else {
            None
        }
    }

    /// The router with one endpoint changed.
    pub open spec fn with_endpoint(self, i: int, e: EndpointState<T>) -> RouterState<T> {
        RouterState { endpoints: self.endpoints.update(i, e), ..self }
    }

    /// The router after another endpoint was added.
    pub open spec fn added(self, address: T, weight: u32, id: EndpointId) -> RouterState<T> {
        RouterState {
            endpoints: self.endpoints.push(
                EndpointState {
                    id,
                    address,
                    weight: health::at_least_one(weight),
                    in_flight: 0,
                    health: HealthState::fresh(self.policy),
                    probing: false,
                },
            ),
            next_id: (self.next_id + 1) as usize,
            ..self
        }
    }

    /// The router after the endpoint at `i` was removed.
    pub open spec fn removed(self, i: int) -> RouterState<T> {
        RouterState {
            endpoints: self.endpoints.remove(i),
            cursor: if self.cursor >= self.endpoints.len() - 1 {
                0
            } else {
                self.cursor
            },
            credit: 0,
            ..self
        }
    }

    /// The router after a request to `id` has begun.
    pub open spec fn started(self, id: EndpointId) -> RouterState<T> {
        match self.position(id) {
            Some(i) => self.with_endpoint(
                i,
                EndpointState {
                    in_flight: one_more(self.endpoints[i].in_flight),
                    ..self.endpoints[i]
                },
            ),
            None => self,
        }
    }

    /// The router after a request to `id` has succeeded.
    pub open spec fn succeeded(self, id: EndpointId, now: Instant) -> RouterState<T> {
        match self.position(id) {
            Some(i) => self.with_endpoint(
                i,
                EndpointState {
                    in_flight: one_less(self.endpoints[i].in_flight),
                    health: self.endpoints[i].health.after_success(now),
                    probing: false,
                    ..self.endpoints[i]
                },
            ),
            None => self,
        }
    }

    /// The router after a request to `id` has failed.
    pub open spec fn failed(self, id: EndpointId, now: Instant) -> RouterState<T> {
        match self.position(id) {
            Some(i) => self.with_endpoint(
                i,
                EndpointState {
                    in_flight: one_less(self.endpoints[i].in_flight),
                    health: self.endpoints[i].health.after_failure(now),
                    probing: false,
                    ..self.endpoints[i]
                },
            ),
            None => self,
        }
    }

    /// The router with every endpoint at full health.
    pub open spec fn all_restored(self) -> RouterState<T> {
        RouterState {
            endpoints: self.endpoints.map_values(
                |e: EndpointState<T>|
                    EndpointState { health: e.health.restored(), probing: false, ..e },
            ),
            ..self
        }
    }

    /// The router after the endpoint `step` places after the cursor was chosen,
    /// under its strategy.
    pub open spec fn turned(self, step: int) -> RouterState<T> {
        let count = self.endpoints.len();
        let i = place(self.cursor, step, count);
        match self.strategy {
            Strategy::RoundRobin => RouterState { cursor: next_place(i, count), ..self },
            Strategy::WeightedRoundRobin => {
                let turns = if step == 0 && self.credit > 0 {
                    self.credit
                } else {
                    self.endpoints[i].weight
                };
                RouterState {
                    cursor: if turns == 1 {
                        next_place(i, count)
                    } else {
                        i as nat
                    },
                    credit: (turns - 1) as u32,
                    ..self
                }
            },
            Strategy::LeastConnections => self,
        }
    }

    /// What a selection at `now` may answer, and what the router is after it.
    pub open spec fn selects(
        self,
        now: Instant,
        choice: Option<EndpointId>,
        after: RouterState<T>,
    ) -> bool {
        if some_due(self.endpoints, now) {
            exists|i: int|
                {
                    &&& #[trigger] first_due(self.endpoints, now, i)
                    &&& choice == Some(self.endpoints[i].id)
                    &&& after == RouterState {
                        selections: (self.selections + 1) as u64,
                        probes: (self.probes + 1) as u64,
                        ..self.with_endpoint(
                            i,
                            EndpointState { probing: true, ..self.endpoints[i] },
                        )
                    }
                }
        } else if !some_available(self.endpoints, now) {
            &&& choice is None
            &&& after == RouterState {
                exhausted: (self.exhausted + 1) as u64,
                credit: if self.strategy is WeightedRoundRobin && self.endpoints.len() > 0 {
                    0
                } else {
                    self.credit
                },
                ..self
            }
        } else if self.strategy is LeastConnections {
            exists|i: int|
                {
                    &&& #[trigger] least_loaded(self.endpoints, now, i)
                    &&& choice == Some(self.endpoints[i].id)
                    &&& after == RouterState { selections: (self.selections + 1) as u64, ..self }
                }
        } else {
            exists|step: int|
                {
                    &&& #[trigger] nearest(self.endpoints, now, self.cursor, step)
                    &&& choice == Some(
                        self.endpoints[place(self.cursor, step, self.endpoints.len())].id,
                    )
                    &&& after == RouterState {
                        selections: (self.selections + 1) as u64,
                        ..self.turned(step)
                    }
                }
        }
    }
}

/// The place after `i`, going round.
pub open spec fn next_place(i: int, count: nat) -> nat {
    if i + 1 < count {
        (i + 1) as nat
    } else {
        0
    }
}

/// Selects endpoints, avoiding unhealthy ones.
#[derive(Debug)]
pub struct Router<T> {
    endpoints: Vec<Endpoint<T>>,
    strategy: Strategy,
    policy: HealthPolicy,
    cursor: usize,
    /// Remaining turns of the endpoint at `cursor`, used by
    /// [`Strategy::WeightedRoundRobin`].
    credit: u32,
    selections: u64,
    exhausted: u64,
    probes: u64,
    next_id: usize,
}

impl<T> View for Router<T> {
    type V = RouterState<T>;

    closed spec fn view(&self) -> RouterState<T> {
        RouterState {
            endpoints: Seq::new(self.endpoints@.len(), |i: int| self.endpoints@[i]@),
            strategy: self.strategy,
            policy: self.policy,
            cursor: self.cursor as nat,
            credit: self.credit,
            selections: self.selections,
            exhausted: self.exhausted,
            probes: self.probes,
            next_id: self.next_id,
        }
    }
}

impl<T> Router<T> {
    /// Creates an empty router using `strategy`.
    pub fn new(strategy: Strategy) -> (r: Router<T>)
        ensures
            r@.wf(),
            exists|policy: HealthPolicy|
                {
                    &&& r@ == #[trigger] RouterState::<T>::empty(strategy, policy)
                    &&& policy.failure_threshold == health::DEFAULT_FAILURE_THRESHOLD
                    &&& policy.success_threshold == health::DEFAULT_SUCCESS_THRESHOLD
                    &&& policy.cooldown.nanos() == health::DEFAULT_COOLDOWN_SECS * 1_000_000_000
                },
    {
        let policy = HealthPolicy::new();
        Router::with_policy(strategy, policy)
    }

    /// Creates an empty router with an explicit health policy.
    pub fn with_policy(strategy: Strategy, policy: HealthPolicy) -> (r: Router<T>)
        ensures
            r@.wf(),
            r@ == RouterState::<T>::empty(strategy, policy),
    {
        let r = Router {
            endpoints: Vec::new(),
            strategy,
            policy,
            cursor: 0,
            credit: 0,
            selections: 0,
            exhausted: 0,
            probes: 0,
            next_id: 0,
        };
        assert(r@ =~= RouterState::<T>::empty(strategy, policy));
        r
    }

    /// Adds an endpoint with the default weight of 1.
    pub fn add(&mut self, address: T) -> (id: EndpointId)
        requires
            old(self)@.wf(),
            old(self)@.next_id < usize::MAX,
        ensures
            final(self)@.wf(),
            id.number() == old(self)@.next_id,
            final(self)@ == old(self)@.added(address, 1, id),
    {
        self.add_weighted(address, 1)
    }

    /// Adds an endpoint with an explicit capacity weight.
    ///
    /// A zero weight is raised to one: an endpoint that can never be chosen
    /// should be removed rather than registered.
    pub fn add_weighted(&mut self, address: T, weight: u32) -> (id: EndpointId)
        requires
            old(self)@.wf(),
            old(self)@.next_id < usize::MAX,
        ensures
            final(self)@.wf(),
            id.number() == old(self)@.next_id,
            final(self)@ == old(self)@.added(address, weight, id),
    {
        let ghost before = self@;
        let id = EndpointId { index: self.next_id };
        self.next_id = self.next_id + 1;
        self.endpoints.push(
            Endpoint {
                id,
                address,
                weight: if weight == 0 {
                    1
                } else {
                    weight
                },
                in_flight: 0,
                health: HealthTracker::new(self.policy),
                probing: false,
            },
        );
        assert(self@ =~= before.added(address, weight, id));
        id
    }

    /// Where the endpoint with this identifier stands.
    fn find(&self, id: EndpointId) -> (r: Option<usize>)
        requires
            self@.wf(),
        ensures
            match r {
                Some(i) => i < self.endpoints@.len() && self@.position(id) == Some(i as int)
                    && self@.has_at(id, i as int),
                None => self@.position(id) is None,
            },
    {
        let mut i: usize = 0;
        while i < self.endpoints.len()
            invariant
                i <= self.endpoints@.len(),
                self@.wf(),
                forall|j: int| 0 <= j < i ==> !#[trigger] self@.has_at(id, j),
            decreases self.endpoints@.len() - i,
        {
            if self.endpoints[i].id.index == id.index {
                proof {
                    position_is_unique(self@, id, i as int);
                }
                return Some(i);
            }
            i += 1;
        }
        None
    }

    /// Removes an endpoint, returning its address if it was present.
    pub fn remove(&mut self, id: EndpointId) -> (r: Option<T>)
        requires
            old(self)@.wf(),
        ensures
            final(self)@.wf(),
            match old(self)@.position(id) {
                Some(i) => r == Some(old(self)@.endpoints[i].address) && final(self)@ == old(
                    self,
                )@.removed(i),
                None => r is None && final(self)@ == old(self)@,
            },
    {
        let ghost before = self@;
        match self.find(id) {
            Some(i) => {
                let removed = self.endpoints.remove(i);
                if self.cursor >= self.endpoints.len() {
                    self.cursor = 0;
                }
                self.credit = 0;
                proof {
                    assert(self@ =~= before.removed(i as int));
                    let eps = self@.endpoints;
                    assert forall|a: int, b: int| 0 <= a < b < eps.len() implies (
                    #[trigger] eps[a]).id.number() < (#[trigger] eps[b]).id.number() by {
                        let x = if a < i {
                            a
                        } else {
                            a + 1
                        };
                        let y = if b < i {
                            b
                        } else {
                            b + 1
                        };
                        assert(eps[a] == before.endpoints[x] && eps[b] == before.endpoints[y]);
                    }
                }
                Some(removed.address)
            },
            None => None,
        }
    }

    /// Returns the number of registered endpoints.
    pub fn len(&self) -> (n: usize)
        ensures
            n == self@.endpoints.len(),
    {
        self.endpoints.len()
    }

    /// Returns `true` if no endpoint is registered.
    pub fn is_empty(&self) -> (r: bool)
        ensures
            r == (self@.endpoints.len() == 0),
    {
        self.endpoints.len() == 0
    }

    /// Returns the selection strategy.
    pub fn strategy(&self) -> (s: Strategy)
        ensures
            s == self@.strategy,
    {
        self.strategy
    }

    /// Changes the selection strategy.
    pub fn set_strategy(&mut self, strategy: Strategy)
        requires
            old(self)@.wf(),
        ensures
            final(self)@.wf(),
            final(self)@ == (RouterState { strategy, credit: 0, ..old(self)@ }),
    {
        let ghost before = self@;
        self.strategy = strategy;
        self.credit = 0;
        assert(self@ =~= (RouterState { strategy, credit: 0, ..before }));
    }

    /// Returns an endpoint by identifier.
    pub fn endpoint(&self, id: EndpointId) -> (r: Option<&Endpoint<T>>)
        requires
            self@.wf(),
        ensures
            match r {
                Some(e) => self@.position(id) matches Some(i) && e@ == self@.endpoints[i] && e@.id
                    == id,
                None => self@.position(id) is None,
            },
    {
        match self.find(id) {
            Some(i) => Some(&self.endpoints[i]),
            None => None,
        }
    }

    /// Returns the address an identifier routes to.
    pub fn address(&self, id: EndpointId) -> (r: Option<&T>)
        requires
            self@.wf(),
        ensures
            match r {
                Some(a) => self@.position(id) matches Some(i) && *a == self@.endpoints[i].address,
                None => self@.position(id) is None,
            },
    {
        match self.endpoint(id) {
            Some(e) => Some(e.address()),
            None => None,
        }
    }

    /// Returns every registered endpoint, in the order in which they were added.
    pub fn endpoints(&self) -> (eps: &[Endpoint<T>])
        ensures
            eps@.len() == self@.endpoints.len(),
            forall|i: int| 0 <= i < eps@.len() ==> (#[trigger] eps@[i])@ == self@.endpoints[i],
    {
        self.endpoints.as_slice()
    }

    /// Returns a snapshot of router activity as of `now`.
    pub fn stats(&self, now: Instant) -> (s: RouterStats)
        ensures
            s.endpoints == self@.endpoints.len(),
            s.healthy == count_available(self@.endpoints, now),
            s.withdrawn == self@.endpoints.len() - count_available(self@.endpoints, now),
            s.selections == self@.selections,
            s.exhausted == self@.exhausted,
            s.probes == self@.probes,
    {
        let mut healthy: usize = 0;
        let mut i: usize = 0;
        assert(self@.endpoints.take(0) =~= Seq::empty());
        while i < self.endpoints.len()
            invariant
                i <= self.endpoints@.len(),
                healthy <= i,
                healthy == count_available(self@.endpoints.take(i as int), now),
            decreases self.endpoints@.len() - i,
        {
            assert(self@.endpoints.take(i as int + 1).drop_last() =~= self@.endpoints.take(
                i as int,
            ));
            if self.endpoints[i].health.is_available(now) {
                healthy += 1;
            }
            i += 1;
        }
        assert(self@.endpoints.take(i as int) =~= self@.endpoints);
        RouterStats {
            endpoints: self.endpoints.len(),
            healthy,
            withdrawn: self.endpoints.len() - healthy,
            selections: self.selections,
            exhausted: self.exhausted,
            probes: self.probes,
        }
    }

    /// Selects an endpoint for the next request.
    ///
    /// A recovering endpoint takes priority: the probe is what restores
    /// capacity. It gets no second request before the first is reported on.
    ///
    /// Returns `None` when every endpoint is withdrawn and none is due a probe.
    /// Callers should treat that as backpressure rather than routing anyway.
    pub fn select(&mut self, now: Instant) -> (r: Option<EndpointId>)
        requires
            old(self)@.wf(),
            old(self)@.can_count(),
        ensures
            final(self)@.wf(),
            old(self)@.selects(now, r, final(self)@),
    {
        let ghost before = self@;
        match self.first_due_probe(now) {
            Some(i) => {
                let id = self.endpoints[i].id;
                self.selections = self.selections + 1;
                self.probes = self.probes + 1;
                self.endpoints[i].probing = true;
                proof {
                    let e = before.endpoints[i as int];
                    assert(self@ =~= (RouterState {
                        selections: (before.selections + 1) as u64,
                        probes: (before.probes + 1) as u64,
                        ..before.with_endpoint(i as int, EndpointState { probing: true, ..e })
                    }));
                    assert(e.due_probe(now));
                    update_keeps_shape(
                        before,
                        i as int,
                        EndpointState { probing: true, ..e },
                        self@,
                    );
                }
                return Some(id);
            },
            None => {},
        }
        assert(!some_due(before.endpoints, now));
        let selected = match self.strategy {
            Strategy::RoundRobin => self.select_round_robin(now),
            Strategy::WeightedRoundRobin => self.select_weighted(now),
            Strategy::LeastConnections => self.select_least_connections(now),
        };
        match selected {
            Some(id) => {
                self.selections = self.selections + 1;
                Some(id)
            },
            None => {
                self.exhausted = self.exhausted + 1;
                None
            },
        }
    }

    /// Where the first endpoint stands that is due a recovery probe.
    fn first_due_probe(&self, now: Instant) -> (r: Option<usize>)
        ensures
            match r {
                Some(i) => first_due(self@.endpoints, now, i as int),
                None => !some_due(self@.endpoints, now),
            },
    {
        let mut i: usize = 0;
        while i < self.endpoints.len()
            invariant
                i <= self.endpoints@.len(),
                forall|j: int| 0 <= j < i ==> !(#[trigger] self@.endpoints[j]).due_probe(now),
            decreases self.endpoints@.len() - i,
        {
            if !self.endpoints[i].probing && self.endpoints[i].health.accepts_probe(now) {
                return Some(i);
            }
            i += 1;
        }
        None
    }

    /// How many places after the cursor the nearest available endpoint lies.
    fn nearest_available(&self, now: Instant) -> (r: Option<(usize, usize)>)
        requires
            self@.wf(),
        ensures
            match r {
                Some((step, i)) => nearest(self@.endpoints, now, self@.cursor, step as int) && i
                    == place(self@.cursor, step as int, self@.endpoints.len()) && i
                    < self.endpoints@.len(),
                None => !some_available(self@.endpoints, now),
            },
    {
        let count: usize = self.endpoints.len();
        let mut step: usize = 0;
        while step < count
            invariant
                count == self.endpoints@.len(),
                step <= count,
                self@.wf(),
                forall|k: int|
                    0 <= k < step ==> !(#[trigger] self@.endpoints[place(
                        self@.cursor,
                        k,
                        count as nat,
                    )]).available(now),
            decreases count - step,
        {
            let i: usize = if step < count - self.cursor {
                self.cursor + step
            } else {
                step - (count - self.cursor)
            };
            if self.endpoints[i].health.is_available(now) {
                return Some((step, i));
            }
            assert(!self@.endpoints[place(self@.cursor, step as int, count as nat)].available(now));
            step += 1;
        }
        proof {
            if some_available(self@.endpoints, now) {
                let i = choose|i: int|
                    0 <= i < self@.endpoints.len() && (#[trigger] self@.endpoints[i]).available(
                        now,
                    );
                let k = if i >= self.cursor {
                    i - self.cursor
                } else {
                    i + count - self.cursor
                };
                assert(place(self@.cursor, k, count as nat) == i);
                assert(!self@.endpoints[place(self@.cursor, k, count as nat)].available(now));
            }
        }
        None
    }

    /// Advances the cursor past the next available endpoint.
    fn select_round_robin(&mut self, now: Instant) -> (r: Option<EndpointId>)
        requires
            old(self)@.wf(),
            old(self)@.strategy is RoundRobin,
        ensures
            final(self)@.wf(),
            match r {
                Some(id) => exists|step: int|
                    {
                        &&& #[trigger] nearest(
                            old(self)@.endpoints,
                            now,
                            old(self)@.cursor,
                            step,
                        )
                        &&& id == old(self)@.endpoints[place(
                            old(self)@.cursor,
                            step,
                            old(self)@.endpoints.len(),
                        )].id
                        &&& final(self)@ == old(self)@.turned(step)
                    },
                None => !some_available(old(self)@.endpoints, now) && final(self)@ == old(self)@,
            },
    {
        let ghost before = self@;
        match self.nearest_available(now) {
            Some((step, i)) => {
                let count: usize = self.endpoints.len();
                self.cursor = if i + 1 < count {
                    i + 1
                } else {
                    0
                };
                assert(self@ =~= before.turned(step as int));
                Some(self.endpoints[i].id)
            },
            None => None,
        }
    }

    /// Serves each endpoint for as many turns as its weight before moving on.
    fn select_weighted(&mut self, now: Instant) -> (r: Option<EndpointId>)
        requires
            old(self)@.wf(),
            old(self)@.strategy is WeightedRoundRobin,
        ensures
            final(self)@.wf(),
            match r {
                Some(id) => exists|step: int|
                    {
                        &&& #[trigger] nearest(
                            old(self)@.endpoints,
                            now,
                            old(self)@.cursor,
                            step,
                        )
                        &&& id == old(self)@.endpoints[place(
                            old(self)@.cursor,
                            step,
                            old(self)@.endpoints.len(),
                        )].id
                        &&& final(self)@ == old(self)@.turned(step)
                    },
                None => {
                    &&& !some_available(old(self)@.endpoints, now)
                    &&& final(self)@ == (RouterState {
                        credit: if old(self)@.endpoints.len() > 0 {
                            0
                        } else {
                            old(self)@.credit
                        },
                        ..old(self)@
                    })
                },
            },
    {
        let ghost before = self@;
        let count: usize = self.endpoints.len();
        match self.nearest_available(now) {
            Some((step, i)) => {
                let turns: u32 = if step == 0 && self.credit > 0 {
                    self.credit
                } else {
                    self.endpoints[i].weight
                };
                assert(before.endpoints[i as int].weight >= 1);
                self.credit = turns - 1;
                self.cursor = if turns == 1 {
                    if i + 1 < count {
                        i + 1
                    } else {
                        0
                    }
                } else {
                    i
                };
                assert(self@ =~= before.turned(step as int));
                Some(self.endpoints[i].id)
            },
            None => {
                if count > 0 {
                    self.credit = 0;
                }
                assert(self@ =~= (RouterState {
                    credit: if before.endpoints.len() > 0 {
                        0
                    } else {
                        before.credit
                    },
                    ..before
                }));
                None
            },
        }
    }

    /// Chooses the available endpoint with the least work outstanding.
    ///
    /// Load is normalized by weight, so that a bigger backend accepts more work
    /// before it looks equally loaded. Ties break toward the higher weight,
    /// and after that toward the lower identifier.
    fn select_least_connections(&self, now: Instant) -> (r: Option<EndpointId>)
        requires
            self@.wf(),
        ensures
            match r {
                Some(id) => exists|i: int|
                    {
                        &&& #[trigger] least_loaded(self@.endpoints, now, i)
                        &&& id == self@.endpoints[i].id
                    },
                None => !some_available(self@.endpoints, now),
            },
    {
        let mut best: Option<usize> = None;
        let mut i: usize = 0;
        while i < self.endpoints.len()
            invariant
                i <= self.endpoints@.len(),
                self@.wf(),
                match best {
                    Some(b) => {
                        &&& b < i
                        &&& self@.endpoints[b as int].available(now)
                        &&& forall|j: int|
                            0 <= j < i && j != b && (#[trigger] self@.endpoints[j]).available(now)
                                ==> self@.endpoints[b as int].lighter_than(self@.endpoints[j])
                    },
                    None => forall|j: int|
                        0 <= j < i ==> !(#[trigger] self@.endpoints[j]).available(now),
                },
            decreases self.endpoints@.len() - i,
        {
            if self.endpoints[i].health.is_available(now) {
                match best {
                    None => {
                        best = Some(i);
                    },
                    Some(b) => {
                        let x = &self.endpoints[i];
                        let y = &self.endpoints[b];
                        let mine: u64 = product(x.in_flight, y.weight);
                        let theirs: u64 = product(y.in_flight, x.weight);
                        let lighter = mine < theirs || (mine == theirs && x.weight > y.weight);
                        proof {
                            let ex = self@.endpoints[i as int];
                            let ey = self@.endpoints[b as int];
                            assert(ey.id.number() < ex.id.number());
                            if lighter {
                                assert(ex.lighter_than(ey));
                                assert forall|j: int|
                                    0 <= j < i + 1 && j != i && (
                                    #[trigger] self@.endpoints[j]).available(
                                        now,
                                    ) implies ex.lighter_than(self@.endpoints[j]) by {
                                    if j != b {
                                        lighter_is_transitive(ex, ey, self@.endpoints[j]);
                                    }
                                }
                            } else {
                                assert(ey.lighter_than(ex));
                            }
                        }
                        if lighter {
                            best = Some(i);
                        }
                    },
                }
            }
            i += 1;
        }
        match best {
            Some(b) => {
                assert(least_loaded(self@.endpoints, now, b as int));
                Some(self.endpoints[b].id)
            },
            None => None,
        }
    }

    /// Records that a request to `id` has begun.
    ///
    /// Required for [`Strategy::LeastConnections`] to mean anything; harmless
    /// otherwise.
    pub fn record_started(&mut self, id: EndpointId)
        requires
            old(self)@.wf(),
        ensures
            final(self)@.wf(),
            final(self)@ == old(self)@.started(id),
            final(self)@ == match old(self)@.position(id) {
                Some(i) => old(self)@.with_endpoint(
                    i,
                    EndpointState {
                        in_flight: one_more(old(self)@.endpoints[i].in_flight),
                        ..old(self)@.endpoints[i]
                    },
                ),
                None => old(self)@,
            },
    {
        let ghost before = self@;
        match self.find(id) {
            Some(i) => {
                let n: u32 = self.endpoints[i].in_flight.saturating_add(1);
                self.endpoints[i].in_flight = n;
                proof {
                    let e = EndpointState { in_flight: n, ..before.endpoints[i as int] };
                    assert(self@ =~= before.with_endpoint(i as int, e));
                    update_keeps_shape(before, i as int, e, self@);
                }
            },
            None => {},
        }
    }

    /// Records a successful request to `id`.
    pub fn record_success(&mut self, id: EndpointId, now: Instant)
        requires
            old(self)@.wf(),
            old(self)@.position(id) matches Some(i) ==> old(self)@.endpoints[i].health.can_count(),
        ensures
            final(self)@.wf(),
            final(self)@ == old(self)@.succeeded(id, now),
            final(self)@ == match old(self)@.position(id) {
                Some(i) => old(self)@.with_endpoint(
                    i,
                    EndpointState {
                        in_flight: one_less(old(self)@.endpoints[i].in_flight),
                        health: old(self)@.endpoints[i].health.after_success(now),
                        probing: false,
                        ..old(self)@.endpoints[i]
                    },
                ),
                None => old(self)@,
            },
    {
        let ghost before = self@;
        match self.find(id) {
            Some(i) => {
                let n: u32 = self.endpoints[i].in_flight.saturating_sub(1);
                self.endpoints[i].in_flight = n;
                self.endpoints[i].probing = false;
                self.endpoints[i].health.record_success(now);
                proof {
                    let e = EndpointState {
                        in_flight: n,
                        health: before.endpoints[i as int].health.after_success(now),
                        probing: false,
                        ..before.endpoints[i as int]
                    };
                    assert(self@ =~= before.with_endpoint(i as int, e));
                    update_keeps_shape(before, i as int, e, self@);
                }
            },
            None => {},
        }
    }

    /// Records a failed request to `id`.
    ///
    /// Enough consecutive failures withdraw the endpoint from selection.
    pub fn record_failure(&mut self, id: EndpointId, now: Instant)
        requires
            old(self)@.wf(),
            old(self)@.position(id) matches Some(i) ==> old(self)@.endpoints[i].health.can_count(),
        ensures
            final(self)@.wf(),
            final(self)@ == old(self)@.failed(id, now),
            final(self)@ == match old(self)@.position(id) {
                Some(i) => old(self)@.with_endpoint(
                    i,
                    EndpointState {
                        in_flight: one_less(old(self)@.endpoints[i].in_flight),
                        health: old(self)@.endpoints[i].health.after_failure(now),
                        probing: false,
                        ..old(self)@.endpoints[i]
                    },
                ),
                None => old(self)@,
            },
    {
        let ghost before = self@;
        match self.find(id) {
            Some(i) => {
                let n: u32 = self.endpoints[i].in_flight.saturating_sub(1);
                self.endpoints[i].in_flight = n;
                self.endpoints[i].probing = false;
                self.endpoints[i].health.record_failure(now);
                proof {
                    let e = EndpointState {
                        in_flight: n,
                        health: before.endpoints[i as int].health.after_failure(now),
                        probing: false,
                        ..before.endpoints[i as int]
                    };
                    assert(self@ =~= before.with_endpoint(i as int, e));
                    update_keeps_shape(before, i as int, e, self@);
                }
            },
            None => {},
        }
    }

    /// Restores every endpoint to full health.
    pub fn reset_health(&mut self)
        requires
            old(self)@.wf(),
        ensures
            final(self)@.wf(),
            final(self)@ == old(self)@.all_restored(),
            final(self)@ == (RouterState {
                endpoints: old(self)@.endpoints.map_values(
                    |e: EndpointState<T>|
                        EndpointState { health: e.health.restored(), probing: false, ..e },
                ),
                ..old(self)@
            }),
    {
        let ghost before = self@;
        let ghost restored = before.endpoints.map_values(
            |e: EndpointState<T>|
                EndpointState { health: e.health.restored(), probing: false, ..e },
        );
        let mut i: usize = 0;
        while i < self.endpoints.len()
            invariant
                i <= self.endpoints@.len(),
                restored.len() == before.endpoints.len(),
                self@.endpoints.len() == before.endpoints.len(),
                self@ == (RouterState { endpoints: self@.endpoints, ..before }),
                forall|j: int| 0 <= j < i ==> (#[trigger] self@.endpoints[j]) == restored[j],
                forall|j: int|
                    i <= j < self@.endpoints.len() ==> (#[trigger] self@.endpoints[j])
                        == before.endpoints[j],
                forall|j: int|
                    0 <= j < restored.len() ==> (#[trigger] restored[j]) == (EndpointState {
                        health: before.endpoints[j].health.restored(),
                        probing: false,
                        ..before.endpoints[j]
                    }),
            decreases self.endpoints@.len() - i,
        {
            let ghost prior = self@;
            assert(prior.endpoints[i as int] == before.endpoints[i as int]);
            self.endpoints[i].health.reset();
            self.endpoints[i].probing = false;
            assert(self@.endpoints =~= prior.endpoints.update(i as int, restored[i as int]));
            i += 1;
        }
        proof {
            assert(self@.endpoints =~= restored);
            assert(self@ =~= (RouterState { endpoints: restored, ..before }));
        }
    }
}

impl<T> Default for Router<T> {
    fn default() -> (r: Router<T>)
        ensures
            r@.wf(),
            exists|policy: HealthPolicy|
                {
                    &&& r@ == #[trigger] RouterState::<T>::empty(Strategy::RoundRobin, policy)
                    &&& policy.failure_threshold == health::DEFAULT_FAILURE_THRESHOLD
                    &&& policy.success_threshold == health::DEFAULT_SUCCESS_THRESHOLD
                    &&& policy.cooldown.nanos() == health::DEFAULT_COOLDOWN_SECS * 1_000_000_000
                },
    {
        Router::new(Strategy::RoundRobin)
    }
}

fn product(a: u32, b: u32) -> (p: u64)
    ensures
        p == a * b,
{
    assert(a * b <= u32::MAX * u32::MAX) by (nonlinear_arith)
        requires
            a <= u32::MAX,
            b <= u32::MAX,
    ;
    (a as u64) * (b as u64)
}

/// One more request, as far as can be counted.
pub open spec fn one_more(n: u32) -> u32 {
    if n < u32::MAX {
        (n + 1) as u32
    } else {
        n
    }
}

/// One request less, if there is one.
pub open spec fn one_less(n: u32) -> u32 {
    if n > 0 {
        (n - 1) as u32
    } else {
        0
    }
}

proof fn position_is_unique<T>(s: RouterState<T>, id: EndpointId, i: int)
    requires
        s.wf(),
        s.has_at(id, i),
    ensures
        s.position(id) == Some(i),
{
    let j = choose|j: int| s.has_at(id, j);
    assert(s.has_at(id, j));
    if i < j {
        assert(s.endpoints[i].id.number() < s.endpoints[j].id.number());
    } else if j < i {
        assert(s.endpoints[j].id.number() < s.endpoints[i].id.number());
    }
}

proof fn update_keeps_shape<T>(
    s: RouterState<T>,
    i: int,
    e: EndpointState<T>,
    after: RouterState<T>,
)
    requires
        s.wf(),
        0 <= i < s.endpoints.len(),
        e.id == s.endpoints[i].id,
        e.weight == s.endpoints[i].weight,
        after.endpoints == s.endpoints.update(i, e),
        after.next_id == s.next_id,
        after.cursor == s.cursor,
    ensures
        after.wf(),
{
    assert forall|a: int, b: int| 0 <= a < b < after.endpoints.len() implies (
    #[trigger] after.endpoints[a]).id.number() < (#[trigger] after.endpoints[b]).id.number() by {
        assert(after.endpoints[a].id == s.endpoints[a].id);
        assert(after.endpoints[b].id == s.endpoints[b].id);
    }
    assert forall|a: int| 0 <= a < after.endpoints.len() implies (
    #[trigger] after.endpoints[a]).id.number() < after.next_id && after.endpoints[a].weight >= 1 by {
        assert(after.endpoints[a].id == s.endpoints[a].id);
        assert(after.endpoints[a].weight == s.endpoints[a].weight);
    }
}

proof fn lighter_is_transitive<T>(a: EndpointState<T>, b: EndpointState<T>, c: EndpointState<T>)
    requires
        a.lighter_than(b),
        b.lighter_than(c),
        a.weight >= 1,
        b.weight >= 1,
        c.weight >= 1,
    ensures
        a.lighter_than(c),
{
    let (fa, fb, fc) = (a.in_flight as int, b.in_flight as int, c.in_flight as int);
    let (wa, wb, wc) = (a.weight as int, b.weight as int, c.weight as int);
    assert(fa * wb <= fb * wa && fb * wc <= fc * wb);
    assert((fa * wb) * wc <= (fb * wa) * wc) by (nonlinear_arith)
        requires
            fa * wb <= fb * wa,
            wc >= 1,
    ;
    assert((fb * wc) * wa <= (fc * wb) * wa) by (nonlinear_arith)
        requires
            fb * wc <= fc * wb,
            wa >= 1,
    ;
    assert((fa * wb) * wc == wb * (fa * wc)) by (nonlinear_arith);
    assert((fb * wa) * wc == (fb * wc) * wa) by (nonlinear_arith);
    assert((fc * wb) * wa == wb * (fc * wa)) by (nonlinear_arith);
    assert(fa * wc <= fc * wa) by (nonlinear_arith)
        requires
            wb * (fa * wc) <= wb * (fc * wa),
            wb >= 1,
    ;
    if fa * wc == fc * wa {
        assert(fa * wb == fb * wa) by (nonlinear_arith)
            requires
                fa * wb <= fb * wa,
                (fa * wb) * wc <= (fb * wa) * wc,
                (fb * wa) * wc <= (fa * wb) * wc,
                wc >= 1,
        ;
        assert(fb * wc == fc * wb) by (nonlinear_arith)
            requires
                fb * wc <= fc * wb,
                (fc * wb) * wa <= (fb * wc) * wa,
                wa >= 1,
        ;
    }
}

/// A selection never goes to an endpoint that is withdrawn and not due a probe,
/// nor to one whose probe is under way; and it fails only when there is no
/// other endpoint.
pub proof fn withdrawn_endpoints_are_skipped<T>(
    s: RouterState<T>,
    now: Instant,
    choice: Option<EndpointId>,
    after: RouterState<T>,
)
    requires
        s.wf(),
        s.selects(now, choice, after),
    ensures
        choice is None <==> !some_due(s.endpoints, now) && !some_available(s.endpoints, now),
        choice matches Some(id) ==> exists|i: int|
            #[trigger] s.has_at(id, i) && (s.endpoints[i].available(now) || s.endpoints[i].due_probe(
                now,
            )),
{
    if let Some(id) = choice {
        if some_due(s.endpoints, now) {
            let i = choose|i: int| #[trigger] first_due(s.endpoints, now, i);
            assert(s.has_at(id, i));
        } else if s.strategy is LeastConnections {
            let i = choose|i: int|
                #[trigger] least_loaded(s.endpoints, now, i) && choice == Some(s.endpoints[i].id);
            assert(s.has_at(id, i));
        } else {
            let step = choose|step: int|
                #[trigger] nearest(s.endpoints, now, s.cursor, step) && choice == Some(
                    s.endpoints[place(s.cursor, step, s.endpoints.len())].id,
                );
            assert(s.has_at(id, place(s.cursor, step, s.endpoints.len())));
        }
    }
}

/// While a probe is under way, its endpoint is not selected again; a report on
/// the probe, good or bad, ends that.
pub proof fn one_probe_at_a_time<T>(
    s: RouterState<T>,
    now: Instant,
    later: Instant,
    id: EndpointId,
    after: RouterState<T>,
    choice: Option<EndpointId>,
    last: RouterState<T>,
)
    requires
        s.wf(),
        some_due(s.endpoints, now),
        s.selects(now, Some(id), after),
        after.position(id) matches Some(i) && !after.endpoints[i].available(later),
        after.selects(later, choice, last),
    ensures
        choice != Some(id),
{
    let i = choose|i: int|
        {
            &&& #[trigger] first_due(s.endpoints, now, i)
            &&& Some(id) == Some(s.endpoints[i].id)
            &&& after == RouterState {
                selections: (s.selections + 1) as u64,
                probes: (s.probes + 1) as u64,
                ..s.with_endpoint(i, EndpointState { probing: true, ..s.endpoints[i] })
            }
        };
    update_keeps_shape(s, i, EndpointState { probing: true, ..s.endpoints[i] }, after);
    assert(after.has_at(id, i));
    position_is_unique(after, id, i);
    withdrawn_endpoints_are_skipped(after, later, choice, last);
    if choice == Some(id) {
        let j = choose|j: int|
            #[trigger] after.has_at(id, j) && (after.endpoints[j].available(later)
                || after.endpoints[j].due_probe(later));
        position_is_unique(after, id, j);
    }
}

/// Where every endpoint is available, round robin serves the endpoint at the
/// cursor and moves on to the next, so that in one round each has its turn.
pub proof fn round_robin_takes_turns<T>(
    s: RouterState<T>,
    now: Instant,
    choice: Option<EndpointId>,
    after: RouterState<T>,
)
    requires
        s.wf(),
        s.strategy is RoundRobin,
        s.endpoints.len() > 0,
        forall|i: int| 0 <= i < s.endpoints.len() ==> (#[trigger] s.endpoints[i]).available(now),
        s.selects(now, choice, after),
    ensures
        choice == Some(s.endpoints[s.cursor as int].id),
        after.endpoints == s.endpoints,
        after.strategy == s.strategy,
        after.cursor == next_place(s.cursor as int, s.endpoints.len()),
{
    assert(s.endpoints[s.cursor as int].available(now));
    assert(!some_due(s.endpoints, now));
    let step = choose|step: int|
        {
            &&& #[trigger] nearest(s.endpoints, now, s.cursor, step)
            &&& choice == Some(s.endpoints[place(s.cursor, step, s.endpoints.len())].id)
            &&& after == RouterState {
                selections: (s.selections + 1) as u64,
                ..s.turned(step)
            }
        };
    if step > 0 {
        assert(s.endpoints[place(s.cursor, 0, s.endpoints.len())].available(now));
    }
}

/// Where every endpoint is available, weighted round robin serves the endpoint
/// at the cursor, and goes on serving it until it has had as many turns as its
/// weight says.
pub proof fn weighted_turns_follow_weight<T>(
    s: RouterState<T>,
    now: Instant,
    choice: Option<EndpointId>,
    after: RouterState<T>,
)
    requires
        s.wf(),
        s.strategy is WeightedRoundRobin,
        s.endpoints.len() > 0,
        forall|i: int| 0 <= i < s.endpoints.len() ==> (#[trigger] s.endpoints[i]).available(now),
        s.selects(now, choice, after),
    ensures
        choice == Some(s.endpoints[s.cursor as int].id),
        after.endpoints == s.endpoints,
        after.strategy == s.strategy,
        ({
            let turns = if s.credit > 0 {
                s.credit
            } else {
                s.endpoints[s.cursor as int].weight
            };
            &&& after.credit == turns - 1
            &&& after.cursor == if turns == 1 {
                next_place(s.cursor as int, s.endpoints.len())
            } else {
                s.cursor
            }
        }),
{
    assert(s.endpoints[s.cursor as int].available(now));
    assert(!some_due(s.endpoints, now));
    let step = choose|step: int|
        {
            &&& #[trigger] nearest(s.endpoints, now, s.cursor, step)
            &&& choice == Some(s.endpoints[place(s.cursor, step, s.endpoints.len())].id)
            &&& after == RouterState {
                selections: (s.selections + 1) as u64,
                ..s.turned(step)
            }
        };
    if step > 0 {
        assert(s.endpoints[place(s.cursor, 0, s.endpoints.len())].available(now));
    }
}

/// The router passes through these states as it makes these choices, one after
/// the other, at `now`.
pub open spec fn run<T>(
    states: Seq<RouterState<T>>,
    choices: Seq<Option<EndpointId>>,
    now: Instant,
) -> bool {
    &&& states.len() == choices.len() + 1
    &&& forall|k: int|
        0 <= k < choices.len() ==> (#[trigger] states[k]).selects(now, choices[k], states[k + 1])
}

/// Every endpoint can serve ordinary traffic.
pub open spec fn all_available<T>(eps: Seq<EndpointState<T>>, now: Instant) -> bool {
    forall|i: int| 0 <= i < eps.len() ==> (#[trigger] eps[i]).available(now)
}

/// Where every endpoint is available, as many selections by round robin as
/// there are endpoints visit each of them once, in order, going round from the
/// cursor.
#[verifier::spinoff_prover]
pub proof fn round_robin_visits_each_endpoint<T>(
    states: Seq<RouterState<T>>,
    choices: Seq<Option<EndpointId>>,
    now: Instant,
    k: int,
)
    requires
        run(states, choices, now),
        forall|j: int| 0 <= j < states.len() ==> (#[trigger] states[j]).wf(),
        states[0].strategy is RoundRobin,
        states[0].endpoints.len() > 0,
        all_available(states[0].endpoints, now),
        choices.len() <= states[0].endpoints.len(),
        0 <= k < choices.len(),
    ensures
        choices[k] == Some(
            states[0].endpoints[place(states[0].cursor, k, states[0].endpoints.len())].id,
        ),
        states[k + 1].endpoints == states[0].endpoints,
        states[k + 1].strategy == states[0].strategy,
        states[k + 1].cursor == next_place(
            place(states[0].cursor, k, states[0].endpoints.len()),
            states[0].endpoints.len(),
        ),
    decreases k,
{
    let count = states[0].endpoints.len();
    let s = states[k];
    if k > 0 {
        round_robin_visits_each_endpoint(states, choices, now, k - 1);
        assert(s.cursor == next_place(place(states[0].cursor, k - 1, count), count));
        assert(next_place(place(states[0].cursor, k - 1, count), count) == place(
            states[0].cursor,
            k,
            count,
        ));
    } else {
        assert(s.wf());
        assert(place(states[0].cursor, 0, count) == states[0].cursor);
    }
    round_robin_step(states, choices, now, k);
}

proof fn round_robin_step<T>(
    states: Seq<RouterState<T>>,
    choices: Seq<Option<EndpointId>>,
    now: Instant,
    k: int,
)
    requires
        run(states, choices, now),
        0 <= k < choices.len(),
        states[k].wf(),
        states[k].strategy is RoundRobin,
        states[k].endpoints.len() > 0,
        all_available(states[k].endpoints, now),
    ensures
        choices[k] == Some(states[k].endpoints[states[k].cursor as int].id),
        states[k + 1].endpoints == states[k].endpoints,
        states[k + 1].strategy == states[k].strategy,
        states[k + 1].cursor == next_place(states[k].cursor as int, states[k].endpoints.len()),
{
    assert(states[k].selects(now, choices[k], states[k + 1]));
    round_robin_takes_turns(states[k], now, choices[k], states[k + 1]);
}

/// Where every endpoint is available, weighted round robin serves the endpoint
/// that it has just moved to for as many turns in a row as its weight says, and
/// moves on to the next.
pub proof fn weight_is_the_number_of_turns<T>(
    states: Seq<RouterState<T>>,
    choices: Seq<Option<EndpointId>>,
    now: Instant,
    k: int,
)
    requires
        run(states, choices, now),
        forall|j: int| 0 <= j < states.len() ==> (#[trigger] states[j]).wf(),
        states[0].strategy is WeightedRoundRobin,
        states[0].endpoints.len() > 0,
        states[0].credit == 0,
        all_available(states[0].endpoints, now),
        choices.len() == states[0].endpoints[states[0].cursor as int].weight,
        0 <= k < choices.len(),
    ensures
        choices[k] == Some(states[0].endpoints[states[0].cursor as int].id),
        states[k + 1].endpoints == states[0].endpoints,
        states[k + 1].strategy == states[0].strategy,
        states[k + 1].credit == choices.len() - (k + 1),
        states[k + 1].cursor == if k + 1 == choices.len() {
            next_place(states[0].cursor as int, states[0].endpoints.len())
        } else {
            states[0].cursor
        },
    decreases k,
{
    if k > 0 {
        weight_is_the_number_of_turns(states, choices, now, k - 1);
    }
    let s = states[k];
    assert(s.wf());
    assert(s.selects(now, choices[k], states[k + 1]));
    weighted_turns_follow_weight(s, now, choices[k], states[k + 1]);
}

/// How many places one has to go on from `cursor` to come to `i`, going round.
pub open spec fn ahead(cursor: nat, i: int, count: nat) -> int {
    if i >= cursor {
        i - cursor
    } else {
        i + count - cursor
    }
}

/// Round robin serves the first available endpoint from the cursor on, going round,
/// and the next round starts right behind it, also where others had to be passed
/// over. Nothing else changes but the count of selections.
pub proof fn round_robin_moves_past_its_choice<T>(
    s: RouterState<T>,
    now: Instant,
    id: EndpointId,
    after: RouterState<T>,
)
    requires
        s.wf(),
        s.strategy is RoundRobin,
        s.selections < u64::MAX,
        forall|j: int| 0 <= j < s.endpoints.len() ==> !(#[trigger] s.endpoints[j]).due_probe(now),
        s.selects(now, Some(id), after),
    ensures
        exists|i: int|
            {
                &&& #[trigger] s.has_at(id, i)
                &&& s.endpoints[i].available(now)
                &&& forall|j: int|
                    0 <= j < s.endpoints.len() && (#[trigger] s.endpoints[j]).available(now)
                        ==> ahead(s.cursor, i, s.endpoints.len()) <= ahead(
                        s.cursor,
                        j,
                        s.endpoints.len(),
                    )
                &&& after.cursor == (i + 1) % s.endpoints.len() as int
            },
        after.endpoints == s.endpoints && after.strategy == s.strategy && after.policy == s.policy,
        after.selections == s.selections + 1,
        after.exhausted == s.exhausted && after.probes == s.probes,
        after.next_id == s.next_id && after.credit == s.credit,
{
    assert(!some_due(s.endpoints, now));
    let n = s.endpoints.len();
    let step = choose|step: int|
        {
            &&& #[trigger] nearest(s.endpoints, now, s.cursor, step)
            &&& Some(id) == Some(s.endpoints[place(s.cursor, step, n)].id)
            &&& after == RouterState {
                selections: (s.selections + 1) as u64,
                ..s.turned(step)
            }
        };
    let i = place(s.cursor, step, n);
    assert(s.has_at(id, i));
    assert forall|j: int|
        0 <= j < n && (#[trigger] s.endpoints[j]).available(now) implies ahead(s.cursor, i, n)
        <= ahead(s.cursor, j, n) by {
        let k = ahead(s.cursor, j, n);
        assert(place(s.cursor, k, n) == j);
        if k < step {
            assert(!s.endpoints[place(s.cursor, k, n)].available(now));
        }
    }
    if i + 1 < n {
        vstd::arithmetic::div_mod::lemma_small_mod((i + 1) as nat, n);
    } else {
        vstd::arithmetic::div_mod::lemma_mod_self_0(n as int);
    }
}

/// Weighted round robin serves the first available endpoint from the cursor on,
/// going round. One that it has just come to has as many turns as its weight says;
/// one that it was serving goes on with the turns it has left. With its last turn the
/// next round starts right behind it, and until then it stays with it.
pub proof fn weighted_turns_are_used_up<T>(
    s: RouterState<T>,
    now: Instant,
    id: EndpointId,
    after: RouterState<T>,
)
    requires
        s.wf(),
        s.strategy is WeightedRoundRobin,
        s.selections < u64::MAX,
        forall|j: int| 0 <= j < s.endpoints.len() ==> !(#[trigger] s.endpoints[j]).due_probe(now),
        s.selects(now, Some(id), after),
    ensures
        exists|i: int|
            {
                &&& #[trigger] s.has_at(id, i)
                &&& s.endpoints[i].available(now)
                &&& forall|j: int|
                    0 <= j < s.endpoints.len() && (#[trigger] s.endpoints[j]).available(now)
                        ==> ahead(s.cursor, i, s.endpoints.len()) <= ahead(
                        s.cursor,
                        j,
                        s.endpoints.len(),
                    )
                &&& i == s.cursor && s.credit > 0 ==> after.credit == s.credit - 1
                &&& i != s.cursor || s.credit == 0 ==> after.credit == s.endpoints[i].weight - 1
                &&& after.credit > 0 ==> after.cursor == i
                &&& after.credit == 0 ==> after.cursor == (i + 1) % s.endpoints.len() as int
            },
        after.endpoints == s.endpoints && after.strategy == s.strategy && after.policy == s.policy,
        after.selections == s.selections + 1,
        after.exhausted == s.exhausted && after.probes == s.probes,
        after.next_id == s.next_id,
{
    assert(!some_due(s.endpoints, now));
    let n = s.endpoints.len();
    let step = choose|step: int|
        {
            &&& #[trigger] nearest(s.endpoints, now, s.cursor, step)
            &&& Some(id) == Some(s.endpoints[place(s.cursor, step, n)].id)
            &&& after == RouterState {
                selections: (s.selections + 1) as u64,
                ..s.turned(step)
            }
        };
    let i = place(s.cursor, step, n);
    assert(s.has_at(id, i));
    assert(s.endpoints[i].weight >= 1);
    assert forall|j: int|
        0 <= j < n && (#[trigger] s.endpoints[j]).available(now) implies ahead(s.cursor, i, n)
        <= ahead(s.cursor, j, n) by {
        let k = ahead(s.cursor, j, n);
        assert(place(s.cursor, k, n) == j);
        if k < step {
            assert(!s.endpoints[place(s.cursor, k, n)].available(now));
        }
    }
    if i + 1 < n {
        vstd::arithmetic::div_mod::lemma_small_mod((i + 1) as nat, n);
    } else {
        vstd::arithmetic::div_mod::lemma_mod_self_0(n as int);
    }
}

/// Least connections serves an available endpoint that no other available one
/// undercuts: none has fewer requests in flight for its weight, nor as many at a
/// higher weight. Nothing changes but the count of selections.
pub proof fn least_connections_picks_the_least_loaded<T>(
    s: RouterState<T>,
    now: Instant,
    id: EndpointId,
    after: RouterState<T>,
)
    requires
        s.wf(),
        s.strategy is LeastConnections,
        s.selections < u64::MAX,
        forall|j: int| 0 <= j < s.endpoints.len() ==> !(#[trigger] s.endpoints[j]).due_probe(now),
        s.selects(now, Some(id), after),
    ensures
        exists|i: int|
            {
                let e = s.endpoints[i];
                &&& #[trigger] s.has_at(id, i)
                &&& e.available(now)
                &&& forall|j: int|
                    0 <= j < s.endpoints.len() && (#[trigger] s.endpoints[j]).available(now) ==> {
                        let mine = e.in_flight * s.endpoints[j].weight;
                        let theirs = s.endpoints[j].in_flight * e.weight;
                        &&& mine <= theirs
                        &&& mine == theirs ==> e.weight >= s.endpoints[j].weight
                        &&& mine == theirs && e.weight == s.endpoints[j].weight ==> i <= j
                    }
            },
        after == (RouterState { selections: (s.selections + 1) as u64, ..s }),
{
    assert(!some_due(s.endpoints, now));
    let i = choose|i: int|
        {
            &&& #[trigger] least_loaded(s.endpoints, now, i)
            &&& Some(id) == Some(s.endpoints[i].id)
            &&& after == RouterState { selections: (s.selections + 1) as u64, ..s }
        };
    assert(s.has_at(id, i));
    assert forall|j: int|
        0 <= j < s.endpoints.len() && (#[trigger] s.endpoints[j]).available(now) implies {
        let e = s.endpoints[i];
        let mine = e.in_flight * s.endpoints[j].weight;
        let theirs = s.endpoints[j].in_flight * e.weight;
        &&& mine <= theirs
        &&& mine == theirs ==> e.weight >= s.endpoints[j].weight
        &&& mine == theirs && e.weight == s.endpoints[j].weight ==> i <= j
    } by {
        if j != i {
            assert(s.endpoints[i].lighter_than(s.endpoints[j]));
            if j < i {
                assert(s.endpoints[j].id.number() < s.endpoints[i].id.number());
            }
        }
    }
}

/// An endpoint that is due a probe comes before everything else: it is chosen, the
/// first of them if there are several, is marked as probed, and its probe is counted.
/// The turns of the others do not move.
pub proof fn probes_come_first<T>(
    s: RouterState<T>,
    now: Instant,
    choice: Option<EndpointId>,
    after: RouterState<T>,
)
    requires
        s.wf(),
        s.can_count(),
        s.selects(now, choice, after),
        exists|j: int| 0 <= j < s.endpoints.len() && (#[trigger] s.endpoints[j]).due_probe(now),
    ensures
        exists|i: int|
            {
                &&& choice is Some
                &&& #[trigger] s.has_at(choice->0, i)
                &&& s.endpoints[i].due_probe(now)
                &&& forall|j: int|
                    0 <= j < s.endpoints.len() && (#[trigger] s.endpoints[j]).due_probe(now) ==> i
                        <= j
                &&& after.endpoints.len() == s.endpoints.len()
                &&& after.endpoints[i].probing
                &&& after.endpoints[i].health == s.endpoints[i].health
                &&& after.endpoints[i].in_flight == s.endpoints[i].in_flight
                &&& after.endpoints[i].id == s.endpoints[i].id
                &&& forall|j: int|
                    0 <= j < s.endpoints.len() && j != i ==> #[trigger] after.endpoints[j]
                        == s.endpoints[j]
            },
        after.cursor == s.cursor && after.credit == s.credit,
        after.selections == s.selections + 1,
        after.probes == s.probes + 1,
        after.exhausted == s.exhausted,
{
    assert(some_due(s.endpoints, now));
    let i = choose|i: int|
        {
            &&& #[trigger] first_due(s.endpoints, now, i)
            &&& choice == Some(s.endpoints[i].id)
            &&& after == RouterState {
                selections: (s.selections + 1) as u64,
                probes: (s.probes + 1) as u64,
                ..s.with_endpoint(i, EndpointState { probing: true, ..s.endpoints[i] })
            }
        };
    assert(s.has_at(choice->0, i));
}

/// A selection that finds nothing is counted as such, and takes no turn away; it
/// comes only where nothing is available and nothing due a probe.
pub proof fn exhaustion_is_counted<T>(s: RouterState<T>, now: Instant, after: RouterState<T>)
    requires
        s.wf(),
        s.can_count(),
        s.selects(now, None, after),
    ensures
        forall|j: int|
            0 <= j < s.endpoints.len() ==> !(#[trigger] s.endpoints[j]).due_probe(now)
                && !s.endpoints[j].available(now),
        after.exhausted == s.exhausted + 1,
        after.selections == s.selections && after.probes == s.probes,
        after.endpoints == s.endpoints && after.cursor == s.cursor,
        after.strategy == s.strategy && after.policy == s.policy && after.next_id == s.next_id,
{
    withdrawn_endpoints_are_skipped(s, now, None, after);
}

/// The router never changes what is available while it only selects, and nothing is
/// due a probe.
proof fn selecting_changes_no_endpoint<T>(
    states: Seq<RouterState<T>>,
    choices: Seq<Option<EndpointId>>,
    now: Instant,
    k: int,
)
    requires
        run(states, choices, now),
        forall|j: int| 0 <= j < states.len() ==> (#[trigger] states[j]).wf(),
        forall|j: int|
            0 <= j < states[0].endpoints.len() ==> !(#[trigger] states[0].endpoints[j]).due_probe(
                now,
            ),
        0 <= k < states.len(),
    ensures
        states[k].endpoints == states[0].endpoints,
        states[k].strategy == states[0].strategy,
    decreases k,
{
    if k > 0 {
        selecting_changes_no_endpoint(states, choices, now, k - 1);
        assert(states[k - 1].selects(now, choices[k - 1], states[k]));
        assert(!some_due(states[k - 1].endpoints, now));
    }
}

proof fn the_nearer_is_served_first<T>(
    states: Seq<RouterState<T>>,
    choices: Seq<Option<EndpointId>>,
    now: Instant,
    a: int,
    b: int,
    near: int,
    far: int,
)
    requires
        run(states, choices, now),
        forall|j: int| 0 <= j < states.len() ==> (#[trigger] states[j]).wf(),
        forall|j: int|
            0 <= j < states[0].endpoints.len() ==> !(#[trigger] states[0].endpoints[j]).due_probe(
                now,
            ),
        states[0].strategy !is LeastConnections,
        0 <= a <= b < choices.len(),
        0 <= near < states[0].endpoints.len(),
        0 <= far < states[0].endpoints.len(),
        states[0].endpoints[near].available(now),
        states[0].endpoints[far].available(now),
        ahead(states[a].cursor, near, states[0].endpoints.len()) < ahead(
            states[a].cursor,
            far,
            states[0].endpoints.len(),
        ),
        choices[b] == Some(states[0].endpoints[far].id),
    ensures
        exists|c: int| a <= c < b && #[trigger] choices[c] == Some(states[0].endpoints[near].id),
    decreases b - a,
{
    let eps = states[0].endpoints;
    let n = eps.len();
    let s = states[a];
    selecting_changes_no_endpoint(states, choices, now, a);
    selecting_changes_no_endpoint(states, choices, now, a + 1);
    assert(s.selects(now, choices[a], states[a + 1]));
    assert(s.wf() && states[a + 1].wf());
    assert(!some_due(s.endpoints, now));
    assert(some_available(s.endpoints, now));
    let step = choose|step: int|
        {
            &&& #[trigger] nearest(s.endpoints, now, s.cursor, step)
            &&& choices[a] == Some(s.endpoints[place(s.cursor, step, n)].id)
            &&& states[a + 1] == RouterState {
                selections: (s.selections + 1) as u64,
                ..s.turned(step)
            }
        };
    let i = place(s.cursor, step, n);
    let k = ahead(s.cursor, near, n);
    assert(place(s.cursor, k, n) == near);
    if k < step {
        assert(!s.endpoints[place(s.cursor, k, n)].available(now));
    }
    assert(step <= k);
    assert(i != far);
    if i < far {
        assert(eps[i].id.number() < eps[far].id.number());
    } else {
        assert(eps[far].id.number() < eps[i].id.number());
    }
    assert(a < b);
    if i == near {
        assert(choices[a] == Some(eps[near].id));
    } else {
        assert(step < k);
        the_nearer_is_served_first(states, choices, now, a + 1, b, near, far);
    }
}

/// Nobody is served again before everybody was: between two turns of an endpoint
/// under round robin, every other available endpoint has one, also while some are
/// withdrawn.
pub proof fn nobody_is_served_twice_before_everybody<T>(
    states: Seq<RouterState<T>>,
    choices: Seq<Option<EndpointId>>,
    now: Instant,
    a: int,
    b: int,
    e: int,
    f: int,
)
    requires
        run(states, choices, now),
        forall|j: int| 0 <= j < states.len() ==> (#[trigger] states[j]).wf(),
        forall|j: int|
            0 <= j < states[0].endpoints.len() ==> !(#[trigger] states[0].endpoints[j]).due_probe(
                now,
            ),
        states[0].strategy is RoundRobin,
        0 <= a < b < choices.len(),
        0 <= e < states[0].endpoints.len(),
        0 <= f < states[0].endpoints.len(),
        e != f,
        states[0].endpoints[f].available(now),
        choices[a] == Some(states[0].endpoints[e].id),
        choices[b] == Some(states[0].endpoints[e].id),
    ensures
        exists|c: int| a < c < b && #[trigger] choices[c] == Some(states[0].endpoints[f].id),
{
    a_choice_was_available(states, choices, now, a, e);
    cursor_behind_choice(states, choices, now, a, e);
    assert(states[a + 1].wf());
    the_nearer_is_served_first(states, choices, now, a + 1, b, f, e);
    let c = choose|c: int|
        a + 1 <= c < b && #[trigger] choices[c] == Some(states[0].endpoints[f].id);
    assert(a < c < b && choices[c] == Some(states[0].endpoints[f].id));
}

proof fn a_choice_was_available<T>(
    states: Seq<RouterState<T>>,
    choices: Seq<Option<EndpointId>>,
    now: Instant,
    a: int,
    e: int,
)
    requires
        run(states, choices, now),
        forall|j: int| 0 <= j < states.len() ==> (#[trigger] states[j]).wf(),
        forall|j: int|
            0 <= j < states[0].endpoints.len() ==> !(#[trigger] states[0].endpoints[j]).due_probe(
                now,
            ),
        0 <= a < choices.len(),
        0 <= e < states[0].endpoints.len(),
        choices[a] == Some(states[0].endpoints[e].id),
    ensures
        states[0].endpoints[e].available(now),
{
    let s = states[a];
    selecting_changes_no_endpoint(states, choices, now, a);
    assert(s.wf());
    assert(s.selects(now, choices[a], states[a + 1]));
    withdrawn_endpoints_are_skipped(s, now, choices[a], states[a + 1]);
    let id = choices[a]->0;
    let i = choose|i: int|
        #[trigger] s.has_at(id, i) && (s.endpoints[i].available(now) || s.endpoints[i].due_probe(
            now,
        ));
    position_is_unique(s, id, i);
    assert(s.has_at(id, e));
    position_is_unique(s, id, e);
    assert(!states[0].endpoints[e].due_probe(now));
}

proof fn cursor_behind_choice<T>(
    states: Seq<RouterState<T>>,
    choices: Seq<Option<EndpointId>>,
    now: Instant,
    a: int,
    e: int,
)
    requires
        run(states, choices, now),
        forall|j: int| 0 <= j < states.len() ==> (#[trigger] states[j]).wf(),
        forall|j: int|
            0 <= j < states[0].endpoints.len() ==> !(#[trigger] states[0].endpoints[j]).due_probe(
                now,
            ),
        states[0].strategy is RoundRobin,
        0 <= a < choices.len(),
        0 <= e < states[0].endpoints.len(),
        choices[a] == Some(states[0].endpoints[e].id),
    ensures
        states[a + 1].cursor == if e + 1 < states[0].endpoints.len() {
            e + 1
        } else {
            0
        },
{
    let s = states[a];
    let n = s.endpoints.len();
    selecting_changes_no_endpoint(states, choices, now, a);
    a_choice_was_available(states, choices, now, a, e);
    assert(s.wf());
    assert(s.selects(now, choices[a], states[a + 1]));
    assert(!some_due(s.endpoints, now));
    assert(some_available(s.endpoints, now));
    let step = choose|step: int|
        {
            &&& #[trigger] nearest(s.endpoints, now, s.cursor, step)
            &&& choices[a] == Some(s.endpoints[place(s.cursor, step, n)].id)
            &&& states[a + 1] == RouterState {
                selections: (s.selections + 1) as u64,
                ..s.turned(step)
            }
        };
    let i = place(s.cursor, step, n);
    assert(s.has_at(choices[a]->0, i));
    position_is_unique(s, choices[a]->0, i);
    assert(s.has_at(choices[a]->0, e));
    position_is_unique(s, choices[a]->0, e);
}

/// The identifiers of the endpoints that can serve ordinary traffic.
pub open spec fn available_ids<T>(eps: Seq<EndpointState<T>>, now: Instant) -> Set<EndpointId> {
    Set::new(
        |id: EndpointId|
            exists|i: int|
                0 <= i < eps.len() && (#[trigger] eps[i]).available(now) && eps[i].id == id,
    )
}

proof fn available_ids_are_counted<T>(eps: Seq<EndpointState<T>>, now: Instant)
    requires
        forall|i: int, j: int|
            0 <= i < j < eps.len() ==> (#[trigger] eps[i]).id.number() < (
            #[trigger] eps[j]).id.number(),
    ensures
        available_ids(eps, now).finite(),
        available_ids(eps, now).len() == count_available(eps, now),
    decreases eps.len(),
{
    let ids = available_ids(eps, now);
    if eps.len() == 0 {
        assert(ids =~= Set::empty());
    } else {
        let rest = eps.drop_last();
        let last = eps.last();
        available_ids_are_counted(rest, now);
        let fewer = available_ids(rest, now);
        assert forall|id: EndpointId| #[trigger] fewer.contains(id) implies ids.contains(id) && id
            != last.id by {
            let i = choose|i: int|
                0 <= i < rest.len() && (#[trigger] rest[i]).available(now) && rest[i].id == id;
            assert(eps[i] == rest[i]);
            assert(eps[i].id.number() < eps[eps.len() - 1].id.number());
        }
        assert forall|id: EndpointId| #[trigger] ids.contains(id) implies fewer.contains(id) || (id
            == last.id && last.available(now)) by {
            let i = choose|i: int|
                0 <= i < eps.len() && (#[trigger] eps[i]).available(now) && eps[i].id == id;
            if i < rest.len() {
                assert(rest[i] == eps[i]);
            }
        }
        if last.available(now) {
            assert(eps[eps.len() - 1].available(now));
            assert(ids =~= fewer.insert(last.id));
        } else {
            assert(ids =~= fewer);
        }
    }
}

proof fn what_is_covered_fits(
    choices: Seq<Option<EndpointId>>,
    a: int,
    b: int,
    ids: Set<EndpointId>,
)
    requires
        0 <= a <= b <= choices.len(),
        ids.finite(),
        forall|id: EndpointId| #[trigger]
            ids.contains(id) ==> exists|c: int| a <= c < b && #[trigger] choices[c] == Some(id),
    ensures
        ids.len() <= b - a,
    decreases b - a,
{
    if a == b {
        assert(ids =~= Set::empty());
    } else {
        let last = choices[b - 1];
        let fewer = if last is Some {
            ids.remove(last->0)
        } else {
            ids
        };
        assert forall|id: EndpointId| #[trigger] fewer.contains(id) implies exists|c: int|
            a <= c < b - 1 && #[trigger] choices[c] == Some(id) by {
            assert(ids.contains(id));
            let c = choose|c: int| a <= c < b && #[trigger] choices[c] == Some(id);
            assert(c != b - 1);
            assert(a <= c < b - 1 && choices[c] == Some(id));
        }
        what_is_covered_fits(choices, a, b - 1, fewer);
    }
}

proof fn distinct_choices_count(
    choices: Seq<Option<EndpointId>>,
    a: int,
    b: int,
    ids: Set<EndpointId>,
)
    requires
        0 <= a <= b <= choices.len(),
        ids.finite(),
        forall|c: int|
            a <= c < b ==> (#[trigger] choices[c]) is Some && ids.contains(choices[c]->0),
        forall|x: int, y: int|
            a <= x < y < b ==> #[trigger] choices[x] != #[trigger] choices[y],
    ensures
        ids.len() >= b - a,
    decreases b - a,
{
    if a < b {
        let last = choices[b - 1]->0;
        let fewer = ids.remove(last);
        assert forall|c: int| a <= c < b - 1 implies (#[trigger] choices[c]) is Some
            && fewer.contains(choices[c]->0) by {
            assert(choices[c] != choices[b - 1]);
        }
        distinct_choices_count(choices, a, b - 1, fewer);
    }
}

/// Everybody is served once in a round: among as many selections in a row by round
/// robin as there are available endpoints, each of these is chosen, and none twice,
/// also while others are withdrawn.
#[verifier::spinoff_prover]
#[verifier::rlimit(40)]
pub proof fn a_round_serves_everybody_once<T>(
    states: Seq<RouterState<T>>,
    choices: Seq<Option<EndpointId>>,
    now: Instant,
    a: int,
    b: int,
)
    requires
        run(states, choices, now),
        forall|j: int| 0 <= j < states.len() ==> (#[trigger] states[j]).wf(),
        forall|j: int|
            0 <= j < states[0].endpoints.len() ==> !(#[trigger] states[0].endpoints[j]).due_probe(
                now,
            ),
        states[0].strategy is RoundRobin,
        0 <= a <= b <= choices.len(),
        b - a == count_available(states[0].endpoints, now),
    ensures
        forall|x: int, y: int| a <= x < y < b ==> #[trigger] choices[x] != #[trigger] choices[y],
        forall|f: int|
            0 <= f < states[0].endpoints.len() && (#[trigger] states[0].endpoints[f]).available(now)
                ==> exists|c: int|
                a <= c < b && #[trigger] choices[c] == Some(states[0].endpoints[f].id),
{
    let eps = states[0].endpoints;
    let ids = available_ids(eps, now);
    assert(states[0].wf());
    available_ids_are_counted(eps, now);
    if a < b {
        assert(ids.len() > 0);
        let some = ids.choose();
        assert(ids.contains(some));
        let at = choose|i: int|
            0 <= i < eps.len() && (#[trigger] eps[i]).available(now) && eps[i].id == some;
        assert(eps[at].available(now));
    }
    assert forall|c: int| a <= c < b implies (#[trigger] choices[c]) is Some && ids.contains(
        choices[c]->0,
    ) by {
        choices_are_available(states, choices, now, c);
    }
    assert forall|x: int, y: int| a <= x < y < b implies #[trigger] choices[x]
        != #[trigger] choices[y] by {
        if choices[x] == choices[y] {
            assert(ids.contains(choices[x]->0));
            let e = choose|i: int|
                0 <= i < eps.len() && (#[trigger] eps[i]).available(now) && eps[i].id
                    == choices[x]->0;
            assert forall|id: EndpointId| #[trigger] ids.contains(id) implies exists|c: int|
                x <= c < y && #[trigger] choices[c] == Some(id) by {
                let f = choose|i: int|
                    0 <= i < eps.len() && (#[trigger] eps[i]).available(now) && eps[i].id == id;
                if f == e {
                    assert(choices[x] == Some(id));
                } else {
                    nobody_is_served_twice_before_everybody(states, choices, now, x, y, e, f);
                }
            }
            what_is_covered_fits(choices, x, y, ids);
        }
    }
    assert forall|f: int| 0 <= f < eps.len() && (#[trigger] eps[f]).available(now) implies exists|
        c: int,
    | a <= c < b && #[trigger] choices[c] == Some(eps[f].id) by {
        let id = eps[f].id;
        assert(ids.contains(id));
        if !(exists|c: int| a <= c < b && #[trigger] choices[c] == Some(id)) {
            let fewer = ids.remove(id);
            assert forall|c: int| a <= c < b implies (#[trigger] choices[c]) is Some
                && fewer.contains(choices[c]->0) by {
                assert(choices[c] != Some(id));
            }
            distinct_choices_count(choices, a, b, fewer);
        }
    }
}

proof fn choices_are_available<T>(
    states: Seq<RouterState<T>>,
    choices: Seq<Option<EndpointId>>,
    now: Instant,
    c: int,
)
    requires
        run(states, choices, now),
        forall|j: int| 0 <= j < states.len() ==> (#[trigger] states[j]).wf(),
        forall|j: int|
            0 <= j < states[0].endpoints.len() ==> !(#[trigger] states[0].endpoints[j]).due_probe(
                now,
            ),
        exists|i: int|
            0 <= i < states[0].endpoints.len() && (#[trigger] states[0].endpoints[i]).available(
                now,
            ),
        0 <= c < choices.len(),
    ensures
        choices[c] is Some,
        available_ids(states[0].endpoints, now).contains(choices[c]->0),
{
    let s = states[c];
    selecting_changes_no_endpoint(states, choices, now, c);
    assert(s.wf());
    assert(s.selects(now, choices[c], states[c + 1]));
    withdrawn_endpoints_are_skipped(s, now, choices[c], states[c + 1]);
    assert(some_available(s.endpoints, now));
    let id = choices[c]->0;
    let i = choose|i: int|
        #[trigger] s.has_at(id, i) && (s.endpoints[i].available(now) || s.endpoints[i].due_probe(
            now,
        ));
    assert(!states[0].endpoints[i].due_probe(now));
    assert(states[0].endpoints[i].available(now) && states[0].endpoints[i].id == id);
}

/// A turn that has ended does not come back before everybody had one, under weighted
/// round robin too: once another endpoint is served, every available one is served
/// before the first is served again.
pub proof fn weighted_turns_come_round<T>(
    states: Seq<RouterState<T>>,
    choices: Seq<Option<EndpointId>>,
    now: Instant,
    a: int,
    b: int,
    e: int,
    f: int,
)
    requires
        run(states, choices, now),
        forall|j: int| 0 <= j < states.len() ==> (#[trigger] states[j]).wf(),
        forall|j: int|
            0 <= j < states[0].endpoints.len() ==> !(#[trigger] states[0].endpoints[j]).due_probe(
                now,
            ),
        states[0].strategy is WeightedRoundRobin,
        0 <= a,
        a + 1 < b < choices.len(),
        0 <= e < states[0].endpoints.len(),
        0 <= f < states[0].endpoints.len(),
        e != f,
        states[0].endpoints[f].available(now),
        choices[a] == Some(states[0].endpoints[e].id),
        choices[a + 1] != choices[a],
        choices[b] == Some(states[0].endpoints[e].id),
    ensures
        exists|c: int| a < c < b && #[trigger] choices[c] == Some(states[0].endpoints[f].id),
{
    let n = states[0].endpoints.len();
    a_choice_was_available(states, choices, now, a, e);
    let s = states[a];
    selecting_changes_no_endpoint(states, choices, now, a);
    selecting_changes_no_endpoint(states, choices, now, a + 1);
    assert(s.wf() && states[a + 1].wf());
    assert(s.selects(now, choices[a], states[a + 1]));
    assert(states[a + 1].selects(now, choices[a + 1], states[a + 2]));
    assert(!some_due(s.endpoints, now));
    assert(some_available(s.endpoints, now));
    let step = choose|step: int|
        {
            &&& #[trigger] nearest(s.endpoints, now, s.cursor, step)
            &&& choices[a] == Some(s.endpoints[place(s.cursor, step, n)].id)
            &&& states[a + 1] == RouterState {
                selections: (s.selections + 1) as u64,
                ..s.turned(step)
            }
        };
    let i = place(s.cursor, step, n);
    assert(s.has_at(choices[a]->0, i));
    position_is_unique(s, choices[a]->0, i);
    assert(s.has_at(choices[a]->0, e));
    position_is_unique(s, choices[a]->0, e);
    assert(i == e);
    let t = states[a + 1];
    if t.cursor == e {
        let next = choose|step: int|
            #[trigger] nearest(t.endpoints, now, t.cursor, step) && choices[a + 1] == Some(
                t.endpoints[place(t.cursor, step, n)].id,
            );
        assert(place(t.cursor, 0, n) == e);
        if next > 0 {
            assert(!t.endpoints[place(t.cursor, 0, n)].available(now));
        }
        assert(false);
    }
    the_nearer_is_served_first(states, choices, now, a + 1, b, f, e);
    let c = choose|c: int|
        a + 1 <= c < b && #[trigger] choices[c] == Some(states[0].endpoints[f].id);
    assert(a < c < b && choices[c] == Some(states[0].endpoints[f].id));
}

/// `after` differs from `before` in the endpoint at `i` at most.
pub open spec fn only_changed_at<T>(before: RouterState<T>, after: RouterState<T>, i: int) -> bool {
    &&& after.endpoints.len() == before.endpoints.len()
    &&& forall|j: int|
        0 <= j < before.endpoints.len() && j != i ==> #[trigger] after.endpoints[j]
            == before.endpoints[j]
    &&& after.strategy == before.strategy && after.policy == before.policy
    &&& after.cursor == before.cursor && after.credit == before.credit
    &&& after.selections == before.selections && after.exhausted == before.exhausted
    &&& after.probes == before.probes && after.next_id == before.next_id
}

/// A report concerns the endpoint it names and no other: a request that begins is
/// one more in flight, one that ends is one less, its outcome goes to the health of
/// that endpoint, and ends the probe that was under way. A report on an endpoint that
/// is not registered does nothing.
pub proof fn reports_concern_one_endpoint<T>(
    s: RouterState<T>,
    id: EndpointId,
    i: int,
    now: Instant,
)
    requires
        s.wf(),
    ensures
        s.has_at(id, i) ==> {
            let e = s.endpoints[i];
            let (begun, good, bad) = (s.started(id), s.succeeded(id, now), s.failed(id, now));
            &&& only_changed_at(s, begun, i)
            &&& only_changed_at(s, good, i)
            &&& only_changed_at(s, bad, i)
            &&& e.in_flight < u32::MAX ==> begun.endpoints[i] == (EndpointState {
                in_flight: (e.in_flight + 1) as u32,
                ..e
            })
            &&& e.in_flight == u32::MAX ==> begun.endpoints[i] == e
            &&& e.in_flight > 0 ==> good.endpoints[i].in_flight == e.in_flight - 1
            &&& e.in_flight == 0 ==> good.endpoints[i].in_flight == 0
            &&& bad.endpoints[i].in_flight == good.endpoints[i].in_flight
            &&& !good.endpoints[i].probing && !bad.endpoints[i].probing
            &&& good.endpoints[i].health == e.health.after_success(now)
            &&& bad.endpoints[i].health == e.health.after_failure(now)
            &&& good.endpoints[i].id == id && bad.endpoints[i].id == id
            &&& good.endpoints[i].weight == e.weight && bad.endpoints[i].weight == e.weight
            &&& good.endpoints[i].address == e.address && bad.endpoints[i].address == e.address
        },
        (forall|j: int| 0 <= j < s.endpoints.len() ==> (#[trigger] s.endpoints[j]).id != id)
            ==> s.started(id) == s && s.succeeded(id, now) == s && s.failed(id, now) == s,
{
    if s.has_at(id, i) {
        position_is_unique(s, id, i);
    }
    if s.position(id) is Some {
        assert(s.has_at(id, s.position(id)->0));
    }
}

/// An endpoint that is added comes last, fresh and idle, under a new identifier, with
/// a weight of one at least; the others, and whose turn it is, stay as they are.
pub proof fn endpoints_are_added_last<T>(
    s: RouterState<T>,
    address: T,
    weight: u32,
    id: EndpointId,
)
    requires
        s.wf(),
        s.next_id < usize::MAX,
        id.number() == s.next_id,
    ensures
        ({
            let after = s.added(address, weight, id);
            let e = after.endpoints.last();
            &&& after.wf()
            &&& after.endpoints.len() == s.endpoints.len() + 1
            &&& after.endpoints.drop_last() == s.endpoints
            &&& e.id == id && e.address == address
            &&& e.weight >= 1 && (weight >= 1 ==> e.weight == weight)
            &&& e.in_flight == 0 && !e.probing
            &&& e.health.policy == s.policy && e.health.opened_at is None
            &&& e.health.failures == 0 && e.health.successes == 0
            &&& e.health.total_successes == 0 && e.health.total_failures == 0
            &&& e.health.withdrawals == 0
            &&& forall|j: int|
                0 <= j < s.endpoints.len() ==> (#[trigger] s.endpoints[j]).id != id
            &&& after.next_id == s.next_id + 1
            &&& after.cursor == s.cursor && after.credit == s.credit
            &&& after.strategy == s.strategy && after.policy == s.policy
            &&& after.selections == s.selections && after.exhausted == s.exhausted
            &&& after.probes == s.probes
        }),
{
    let after = s.added(address, weight, id);
    assert(after.endpoints.drop_last() =~= s.endpoints);
    assert forall|a: int, b: int| 0 <= a < b < after.endpoints.len() implies (
    #[trigger] after.endpoints[a]).id.number() < (#[trigger] after.endpoints[b]).id.number() by {
        assert(after.endpoints[a] == s.endpoints[a]);
        if b < s.endpoints.len() {
            assert(after.endpoints[b] == s.endpoints[b]);
        }
    }
}

/// An endpoint that is removed is gone, the others keep their order, and the next
/// round starts on one of them.
pub proof fn removed_endpoints_are_gone<T>(s: RouterState<T>, i: int)
    requires
        s.wf(),
        0 <= i < s.endpoints.len(),
    ensures
        ({
            let after = s.removed(i);
            &&& after.endpoints.len() == s.endpoints.len() - 1
            &&& forall|j: int|
                0 <= j < after.endpoints.len() ==> #[trigger] after.endpoints[j] == s.endpoints[if j
                    < i {
                    j
                } else {
                    j + 1
                }]
            &&& forall|j: int|
                0 <= j < after.endpoints.len() ==> (#[trigger] after.endpoints[j]).id
                    != s.endpoints[i].id
            &&& after.cursor == s.cursor || after.cursor == 0 && s.cursor
                >= after.endpoints.len()
            &&& after.cursor < after.endpoints.len() || after.endpoints.len() == 0
            &&& after.credit == 0
            &&& after.strategy == s.strategy && after.policy == s.policy
            &&& after.next_id == s.next_id
            &&& after.selections == s.selections && after.exhausted == s.exhausted
            &&& after.probes == s.probes
        }),
{
    let after = s.removed(i);
    assert forall|j: int| 0 <= j < after.endpoints.len() implies (#[trigger] after.endpoints[j]).id
        != s.endpoints[i].id by {
        if j < i {
            assert(s.endpoints[j].id.number() < s.endpoints[i].id.number());
        } else {
            assert(s.endpoints[i].id.number() < s.endpoints[j + 1].id.number());
        }
    }
}

/// Restoring health makes every endpoint available at any time, ends every probe, and
/// changes nothing else of them.
pub proof fn restoring_makes_everybody_available<T>(s: RouterState<T>, i: int, now: Instant)
    requires
        0 <= i < s.endpoints.len(),
    ensures
        s.all_restored().endpoints.len() == s.endpoints.len(),
        ({
            let e = s.all_restored().endpoints[i];
            &&& e.available(now) && !e.probing
            &&& e.id == s.endpoints[i].id && e.weight == s.endpoints[i].weight
            &&& e.address == s.endpoints[i].address && e.in_flight == s.endpoints[i].in_flight
            &&& e.health.failures == 0
        }),
        s.all_restored().cursor == s.cursor && s.all_restored().strategy == s.strategy,
        s.all_restored().selections == s.selections && s.all_restored().next_id == s.next_id,
{
}

/// Who serves: an endpoint serves ordinary traffic as long as its circuit is closed,
/// and is due a probe once its circuit has been open for the cooldown and no probe is
/// under way.
pub proof fn endpoints_serve_while_healthy<T>(e: EndpointState<T>, now: Instant)
    ensures
        e.available(now) <==> e.health.opened_at is None,
        e.due_probe(now) ==> e.health.opened_at is Some && !e.probing,
        e.probing ==> !e.due_probe(now),
        e.health.opened_at matches Some(opened) ==> opened.nanos() <= now.nanos() && now.nanos()
            - opened.nanos() <= crate::time::MAX_NANOS ==> (e.due_probe(now) <==> !e.probing
            && now.nanos() >= opened.nanos() + e.health.policy.cooldown.nanos()),
{
    health::health_follows_the_circuit(e.health, now);
}

/// Available endpoints are counted one by one.
pub proof fn available_endpoints_are_counted<T>(eps: Seq<EndpointState<T>>, now: Instant)
    ensures
        count_available(eps, now) == eps.filter(
            |e: EndpointState<T>| e.health.opened_at is None,
        ).len(),
    decreases eps.len(),
{
    let serving = |e: EndpointState<T>| e.health.opened_at is None;
    reveal(Seq::filter);
    if eps.len() > 0 {
        available_endpoints_are_counted(eps.drop_last(), now);
        endpoints_serve_while_healthy(eps.last(), now);
    }
}

/// A new router has no endpoints and has counted nothing.
pub proof fn new_routers_are_empty<T>(strategy: Strategy, policy: HealthPolicy)
    ensures
        ({
            let r = RouterState::<T>::empty(strategy, policy);
            &&& r.endpoints.len() == 0 && r.cursor == 0 && r.credit == 0
            &&& r.selections == 0 && r.exhausted == 0 && r.probes == 0 && r.next_id == 0
            &&& r.strategy == strategy && r.policy == policy
        }),
{
}

} // verus!
