//! Flow control: which flows may deliver messages to which endpoints.
//!
//! A flow is one authenticated stream of traffic, such as a connection or a
//! secure channel. An endpoint receives what a flow delivers only after it
//! was registered as a consumer of that flow, or of the spawner the flow
//! descends from. Everything else is denied.

use vstd::prelude::*;
use crate::routing::Address;

verus! {

/// The name of one flow. Only a registry makes them.
#[derive(Clone, Copy, Debug, PartialEq, Eq, Structural, Hash, PartialOrd, Ord)]
pub struct FlowControlId {
    number: u64,
}

impl FlowControlId {
    /// The place of the id in the order in which a registry hands ids out.
    pub closed spec fn rank(self) -> nat {
        self.number as nat
    }
}

/// Two ids of one rank are one id.
pub proof fn lemma_rank_names_the_id(a: FlowControlId, b: FlowControlId)
    ensures
        a.rank() == b.rank() <==> a == b,
{
}

/// Under which rule a consumer accepts what a flow delivers.
#[derive(Clone, Copy, Debug, PartialEq, Eq, Structural)]
pub enum FlowControlPolicy {
    /// The id names a flow; any number of its producers may deliver any
    /// number of messages.
    ProducerAllowMultiple,
    /// The id names a spawner; the flow itself and every flow that descends
    /// from it may deliver any number of messages.
    SpawnerAllowMultipleMessages,
}

/// The answer of the registry to one delivery.
#[derive(Clone, Copy, Debug, PartialEq, Eq, Structural)]
pub enum Delivery {
    /// The message is handed to the endpoint.
    Allowed,
    /// The message is dropped.
    Denied,
}

/// What a registry holds.
pub struct FlowControlsModel {
    /// Every id of a rank below this number is taken.
    pub issued: nat,
    /// The policy under which an endpoint consumes a flow.
    pub consumers: Map<(Seq<char>, FlowControlId), FlowControlPolicy>,
    /// The flow that an endpoint produces.
    pub producers: Map<Seq<char>, FlowControlId>,
    /// The spawner a flow was spawned by.
    pub spawners: Map<FlowControlId, FlowControlId>,
}

/// Every id the registry knows is taken, and a flow is younger than its spawner.
pub open spec fn well_formed(m: FlowControlsModel) -> bool {
    &&& forall|endpoint: Seq<char>, id: FlowControlId| #[trigger]
        m.consumers.contains_key((endpoint, id)) ==> id.rank() < m.issued
    &&& forall|endpoint: Seq<char>| #[trigger]
        m.producers.contains_key(endpoint) ==> m.producers[endpoint].rank() < m.issued
    &&& forall|flow: FlowControlId| #[trigger]
        m.spawners.contains_key(flow) ==> m.spawners[flow].rank() < flow.rank() < m.issued
}

/// Some spawner that `flow` descends from has `endpoint` registered under the
/// spawner policy.
pub open spec fn spawned_into(m: FlowControlsModel, endpoint: Seq<char>, flow: FlowControlId) -> bool
    decreases flow.rank(),
{
    &&& m.spawners.contains_key(flow)
    &&& m.spawners[flow].rank() < flow.rank()
    &&& {
        ||| (m.consumers.contains_key((endpoint, m.spawners[flow])) && m.consumers[(
            endpoint,
            m.spawners[flow],
        )] == FlowControlPolicy::SpawnerAllowMultipleMessages)
        ||| spawned_into(m, endpoint, m.spawners[flow])
    }
}

/// A message tagged `tag` may reach `endpoint`: the endpoint is registered
/// as a consumer of that flow, or of a spawner the flow descends from.
pub open spec fn allowed(m: FlowControlsModel, tag: FlowControlId, endpoint: Seq<char>) -> bool {
    m.consumers.contains_key((endpoint, tag)) || spawned_into(m, endpoint, tag)
}

/// The answer to a delivery: an untagged message is denied, a tagged one is
/// allowed where `allowed` says so.
pub open spec fn spec_check_delivery(
    m: FlowControlsModel,
    tag: Option<FlowControlId>,
    endpoint: Seq<char>,
) -> Delivery {
    match tag {
        Some(id) => if allowed(m, id, endpoint) {
            Delivery::Allowed
        } else {
            Delivery::Denied
        },
        None => Delivery::Denied,
    }
}

/// What a receiver that waited for a message comes away with.
#[derive(Clone, Copy, Debug, PartialEq, Eq, Structural)]
pub enum ReceiveError {
    /// The time to wait elapsed and no message was delivered.
    TimedOut,
}

/// What guards a hop: whether flow control is in force there.
#[derive(Clone, Copy, Debug, PartialEq, Eq, Structural)]
pub enum AccessControl {
    /// No flow control is configured: every message passes.
    AllowAll,
    /// Nothing passes.
    DenyAll,
    /// Flow control is in force: the registry decides, and denies what it
    /// does not know.
    FlowControl,
}

/// The answer at a hop guarded by `access` to a message tagged `tag` for `endpoint`.
pub open spec fn spec_permits(
    access: AccessControl,
    m: FlowControlsModel,
    tag: Option<FlowControlId>,
    endpoint: Seq<char>,
) -> Delivery {
    match access {
        AccessControl::AllowAll => Delivery::Allowed,
        AccessControl::DenyAll => Delivery::Denied,
        AccessControl::FlowControl => spec_check_delivery(m, tag, endpoint),
    }
}

/// No registration of `before` is missing in `after`, and no id was given back.
pub open spec fn keeps_registrations(before: FlowControlsModel, after: FlowControlsModel) -> bool {
    &&& before.consumers.dom().subset_of(after.consumers.dom())
    &&& before.issued <= after.issued
}

struct ConsumerEntry {
    endpoint: Address,
    id: FlowControlId,
    policy: FlowControlPolicy,
}

struct ProducerEntry {
    endpoint: Address,
    id: FlowControlId,
}

struct SpawnEntry {
    flow: FlowControlId,
    spawner: FlowControlId,
}

spec fn consumer_key(entry: ConsumerEntry) -> (Seq<char>, FlowControlId) {
    (entry.endpoint@, entry.id)
}

spec fn has_consumer(entries: Seq<ConsumerEntry>, key: (Seq<char>, FlowControlId)) -> bool {
    exists|i: int| 0 <= i < entries.len() && consumer_key(#[trigger] entries[i]) == key
}

spec fn consumer_place(entries: Seq<ConsumerEntry>, key: (Seq<char>, FlowControlId)) -> int {
    choose|i: int| 0 <= i < entries.len() && consumer_key(#[trigger] entries[i]) == key
}

spec fn consumers_of(entries: Seq<ConsumerEntry>) -> Map<(Seq<char>, FlowControlId), FlowControlPolicy> {
    Map::new(
        |key: (Seq<char>, FlowControlId)| has_consumer(entries, key),
        |key: (Seq<char>, FlowControlId)| entries[consumer_place(entries, key)].policy,
    )
}

spec fn has_producer(entries: Seq<ProducerEntry>, endpoint: Seq<char>) -> bool {
    exists|i: int| 0 <= i < entries.len() && (#[trigger] entries[i]).endpoint@ == endpoint
}

spec fn producer_place(entries: Seq<ProducerEntry>, endpoint: Seq<char>) -> int {
    choose|i: int| 0 <= i < entries.len() && (#[trigger] entries[i]).endpoint@ == endpoint
}

spec fn producers_of(entries: Seq<ProducerEntry>) -> Map<Seq<char>, FlowControlId> {
    Map::new(
        |endpoint: Seq<char>| has_producer(entries, endpoint),
        |endpoint: Seq<char>| entries[producer_place(entries, endpoint)].id,
    )
}

spec fn has_spawn(entries: Seq<SpawnEntry>, flow: FlowControlId) -> bool {
    exists|i: int| 0 <= i < entries.len() && (#[trigger] entries[i]).flow == flow
}

spec fn spawn_place(entries: Seq<SpawnEntry>, flow: FlowControlId) -> int {
    choose|i: int| 0 <= i < entries.len() && (#[trigger] entries[i]).flow == flow
}

spec fn spawners_of(entries: Seq<SpawnEntry>) -> Map<FlowControlId, FlowControlId> {
    Map::new(
        |flow: FlowControlId| has_spawn(entries, flow),
        |flow: FlowControlId| entries[spawn_place(entries, flow)].spawner,
    )
}

/// The table of flow control registrations of one node.
pub struct FlowControls {
    next: u128,
    consumers: Vec<ConsumerEntry>,
    producers: Vec<ProducerEntry>,
    spawned: Vec<SpawnEntry>,
}

impl View for FlowControls {
    type V = FlowControlsModel;

    closed spec fn view(&self) -> FlowControlsModel {
        FlowControlsModel {
            issued: self.next as nat,
            consumers: consumers_of(self.consumers@),
            producers: producers_of(self.producers@),
            spawners: spawners_of(self.spawned@),
        }
    }
}

impl FlowControls {
    #[verifier::type_invariant]
    spec fn inv(self) -> bool {
        &&& self.next <= 0x1_0000_0000_0000_0000
        &&& forall|i: int, j: int|
            0 <= i < j < self.consumers@.len() ==> consumer_key(#[trigger] self.consumers@[i])
                != consumer_key(#[trigger] self.consumers@[j])
        &&& forall|i: int|
            0 <= i < self.consumers@.len() ==> (#[trigger] self.consumers@[i]).id.number < self.next
        &&& forall|i: int, j: int|
            0 <= i < j < self.producers@.len() ==> (#[trigger] self.producers@[i]).endpoint@ != (
            #[trigger] self.producers@[j]).endpoint@
        &&& forall|i: int|
            0 <= i < self.producers@.len() ==> (#[trigger] self.producers@[i]).id.number < self.next
        &&& forall|i: int, j: int|
            0 <= i < j < self.spawned@.len() ==> (#[trigger] self.spawned@[i]).flow != (
            #[trigger] self.spawned@[j]).flow
        &&& forall|i: int|
            0 <= i < self.spawned@.len() ==> (#[trigger] self.spawned@[i]).spawner.number
                < self.spawned@[i].flow.number < self.next
    }

    proof fn lemma_view_well_formed(self)
        requires
            self.inv(),
        ensures
            well_formed(self@),
    {
        let m = self@;
        assert forall|endpoint: Seq<char>, id: FlowControlId| #[trigger]
            m.consumers.contains_key((endpoint, id)) implies id.rank() < m.issued by {
            let i = consumer_place(self.consumers@, (endpoint, id));
            assert(consumer_key(self.consumers@[i]) == (endpoint, id));
        }
        assert forall|endpoint: Seq<char>| #[trigger]
            m.producers.contains_key(endpoint) implies m.producers[endpoint].rank() < m.issued by {
            let i = producer_place(self.producers@, endpoint);
            assert(self.producers@[i].endpoint@ == endpoint);
        }
        assert forall|flow: FlowControlId| #[trigger] m.spawners.contains_key(flow) implies m.spawners[flow].rank()
            < flow.rank() < m.issued by {
            let i = spawn_place(self.spawned@, flow);
            assert(self.spawned@[i].flow == flow);
        }
    }

    /// A registry without any registration, from which no id was taken yet.
    pub fn new() -> (registry: Self)
        ensures
            registry@.issued == 0,
            registry@.consumers == Map::<(Seq<char>, FlowControlId), FlowControlPolicy>::empty(),
            registry@.producers == Map::<Seq<char>, FlowControlId>::empty(),
            registry@.spawners == Map::<FlowControlId, FlowControlId>::empty(),
            well_formed(registry@),
    {
        let registry = FlowControls {
            next: 0,
            consumers: Vec::new(),
            producers: Vec::new(),
            spawned: Vec::new(),
        };
        assert(registry@.consumers =~= Map::<(Seq<char>, FlowControlId), FlowControlPolicy>::empty());
        assert(registry@.producers =~= Map::<Seq<char>, FlowControlId>::empty());
        assert(registry@.spawners =~= Map::<FlowControlId, FlowControlId>::empty());
        registry
    }

    /// Whether the registry has an id left to hand out.
    pub fn has_free_id(&self) -> (free: bool)
        ensures
            free == (self@.issued <= u64::MAX),
            well_formed(self@),
    {
        proof {
            use_type_invariant(self);
            self.lemma_view_well_formed();
        }
        self.next <= 0xffff_ffff_ffff_ffff
    }

    /// Takes the next id for a new flow.
    fn take_id(&mut self) -> (id: FlowControlId)
        requires
            old(self).next <= u64::MAX,
        ensures
            id.number == old(self).next,
            final(self).next == old(self).next + 1,
            final(self).consumers == old(self).consumers,
            final(self).producers == old(self).producers,
            final(self).spawned == old(self).spawned,
    {
        proof {
            use_type_invariant(&*self);
        }
        let id = FlowControlId { number: self.next as u64 };
        self.next = self.next + 1;
        id
    }

    /// Marks `id` as taken, where it was not.
    fn mark_taken(&mut self, id: &FlowControlId)
        ensures
            final(self).next == if old(self).next > id.number {
                old(self).next
            } else {
                (id.number + 1) as u128
            },
            final(self).consumers == old(self).consumers,
            final(self).producers == old(self).producers,
            final(self).spawned == old(self).spawned,
    {
        proof {
            use_type_invariant(&*self);
        }
        if self.next <= id.number as u128 {
            self.next = id.number as u128 + 1;
        }
    }

    /// Produces a fresh id: one that differs from every id taken so far, and
    /// to which nothing is registered. The registrations stay as they are.
    pub fn generate_id(&mut self) -> (id: FlowControlId)
        requires
            old(self)@.issued <= u64::MAX,
        ensures
            id.rank() == old(self)@.issued,
            final(self)@.issued == old(self)@.issued + 1,
            final(self)@.consumers == old(self)@.consumers,
            final(self)@.producers == old(self)@.producers,
            final(self)@.spawners == old(self)@.spawners,
            well_formed(final(self)@),
            keeps_registrations(old(self)@, final(self)@),
            extends(old(self)@, final(self)@),
            forall|endpoint: Seq<char>| !allowed(final(self)@, id, endpoint),
    {
        proof {
            use_type_invariant(&*self);
            self.lemma_view_well_formed();
        }
        let id = self.take_id();
        proof {
            use_type_invariant(&*self);
            self.lemma_view_well_formed();
            assert forall|endpoint: Seq<char>| !allowed(self@, id, endpoint) by {
                lemma_untaken_id_is_denied(old(self)@, id, endpoint);
            }
        }
        id
    }

    /// The place of the registration of `endpoint` for `id`, if there is one.
    fn find_consumer(&self, endpoint: &Address, id: &FlowControlId) -> (place: Option<usize>)
        ensures
            match place {
                Some(i) => i < self.consumers@.len() && consumer_key(self.consumers@[i as int]) == (
                    endpoint@,
                    *id,
                ),
                None => !has_consumer(self.consumers@, (endpoint@, *id)),
            },
    {
        let mut i: usize = 0;
        while i < self.consumers.len()
            invariant
                i <= self.consumers@.len(),
                forall|j: int|
                    0 <= j < i ==> consumer_key(#[trigger] self.consumers@[j]) != (endpoint@, *id),
            decreases self.consumers.len() - i,
        {
            if self.consumers[i].id == *id && self.consumers[i].endpoint == *endpoint {
                return Some(i);
            }
            i = i + 1;
        }
        None
    }

    /// The place of the registration of `endpoint` as a producer, if there is one.
    fn find_producer(&self, endpoint: &Address) -> (place: Option<usize>)
        ensures
            match place {
                Some(i) => i < self.producers@.len() && self.producers@[i as int].endpoint@
                    == endpoint@,
                None => !has_producer(self.producers@, endpoint@),
            },
    {
        let mut i: usize = 0;
        while i < self.producers.len()
            invariant
                i <= self.producers@.len(),
                forall|j: int| 0 <= j < i ==> (#[trigger] self.producers@[j]).endpoint@ != endpoint@,
            decreases self.producers.len() - i,
        {
            if self.producers[i].endpoint == *endpoint {
                return Some(i);
            }
            i = i + 1;
        }
        None
    }

    /// The place of the record of the spawning of `flow`, if there is one.
    fn find_spawn(&self, flow: &FlowControlId) -> (place: Option<usize>)
        ensures
            match place {
                Some(i) => i < self.spawned@.len() && self.spawned@[i as int].flow == *flow,
                None => !has_spawn(self.spawned@, *flow),
            },
    {
        let mut i: usize = 0;
        while i < self.spawned.len()
            invariant
                i <= self.spawned@.len(),
                forall|j: int| 0 <= j < i ==> (#[trigger] self.spawned@[j]).flow != *flow,
            decreases self.spawned.len() - i,
        {
            if self.spawned[i].flow == *flow {
                return Some(i);
            }
            i = i + 1;
        }
        None
    }

    /// Registers `endpoint` as authorized to receive messages tagged with
    /// `flow_control_id` under `policy`. A second registration of the same
    /// endpoint for the same id replaces the policy; every other
    /// registration stays. The id counts as taken from then on.
    pub fn add_consumer(
        &mut self,
        endpoint: Address,
        flow_control_id: &FlowControlId,
        policy: FlowControlPolicy,
    )
        ensures
            final(self)@.consumers == old(self)@.consumers.insert(
                (endpoint@, *flow_control_id),
                policy,
            ),
            final(self)@.producers == old(self)@.producers,
            final(self)@.spawners == old(self)@.spawners,
            final(self)@.issued == if old(self)@.issued > flow_control_id.rank() {
                old(self)@.issued
            } else {
                flow_control_id.rank() + 1
            },
            well_formed(final(self)@),
            keeps_registrations(old(self)@, final(self)@),
            (old(self)@.consumers.contains_key((endpoint@, *flow_control_id)) ==> old(
                self,
            )@.consumers[(endpoint@, *flow_control_id)] == policy) ==> extends(
                old(self)@,
                final(self)@,
            ),
            allowed(final(self)@, *flow_control_id, endpoint@),
    {
        proof {
            use_type_invariant(&*self);
        }
        self.mark_taken(flow_control_id);
        proof {
            use_type_invariant(&*self);
        }
        let ghost key = (endpoint@, *flow_control_id);
        let ghost before = self.consumers@;
        let entry = ConsumerEntry { endpoint, id: *flow_control_id, policy };
        match self.find_consumer(&entry.endpoint, flow_control_id) {
            Some(i) => {
                let mut list: Vec<ConsumerEntry> = Vec::new();
                core::mem::swap(&mut list, &mut self.consumers);
                list[i] = entry;
                self.consumers = list;
                proof {
                    let after = self.consumers@;
                    assert forall|k: (Seq<char>, FlowControlId)| has_consumer(after, k) <==> has_consumer(
                        before,
                        k,
                    ) by {
                        if has_consumer(after, k) {
                            let j = consumer_place(after, k);
                            assert(consumer_key(before[j]) == k);
                        }
                        if has_consumer(before, k) {
                            let j = consumer_place(before, k);
                            assert(consumer_key(after[j]) == k);
                        }
                    }
                    assert(consumer_key(before[i as int]) == key);
                    assert forall|k: (Seq<char>, FlowControlId)| has_consumer(after, k) implies (
                    #[trigger] consumers_of(after)[k]) == consumers_of(before).insert(key, policy)[k] by {
                        let j = consumer_place(after, k);
                        assert(consumer_key(after[j]) == k);
                        if k == key {
                            assert(consumer_key(after[i as int]) == key);
                            assert(j == i);
                        } else {
                            let j0 = consumer_place(before, k);
                            assert(consumer_key(before[j]) == k);
                            assert(consumer_key(before[j0]) == k);
                            assert(j0 == j);
                        }
                    }
                    assert(consumers_of(after) =~= consumers_of(before).insert(key, policy));
                }
            },
            None => {
                let mut list: Vec<ConsumerEntry> = Vec::new();
                core::mem::swap(&mut list, &mut self.consumers);
                list.push(entry);
                self.consumers = list;
                proof {
                    let after = self.consumers@;
                    let last = before.len() as int;
                    assert(consumer_key(after[last]) == key);
                    assert forall|k: (Seq<char>, FlowControlId)| has_consumer(after, k) <==> (k == key
                        || has_consumer(before, k)) by {
                        if has_consumer(after, k) {
                            let j = consumer_place(after, k);
                            if j < last {
                                assert(consumer_key(before[j]) == k);
                            }
                        }
                        if has_consumer(before, k) {
                            let j = consumer_place(before, k);
                            assert(consumer_key(after[j]) == k);
                        }
                    }
                    assert forall|k: (Seq<char>, FlowControlId)| has_consumer(after, k) implies (
                    #[trigger] consumers_of(after)[k]) == consumers_of(before).insert(key, policy)[k] by {
                        let j = consumer_place(after, k);
                        assert(consumer_key(after[j]) == k);
                        if k == key {
                            if j < last {
                                assert(consumer_key(before[j]) == k);
                            }
                        } else {
                            let j0 = consumer_place(before, k);
                            assert(consumer_key(before[j]) == k);
                            assert(consumer_key(before[j0]) == k);
                            assert(j0 == j);
                        }
                    }
                    assert(consumers_of(after) =~= consumers_of(before).insert(key, policy));
                }
            },
        }
        proof {
            use_type_invariant(&*self);
            self.lemma_view_well_formed();
        }
    }

    /// Registers `endpoint` as a producer of the flow `flow_control_id`: what
    /// it sends is tagged with that id. An endpoint produces one flow; a
    /// second registration replaces the first.
    pub fn add_producer(&mut self, endpoint: Address, flow_control_id: &FlowControlId)
        ensures
            final(self)@.producers == old(self)@.producers.insert(endpoint@, *flow_control_id),
            final(self)@.consumers == old(self)@.consumers,
            final(self)@.spawners == old(self)@.spawners,
            final(self)@.issued == if old(self)@.issued > flow_control_id.rank() {
                old(self)@.issued
            } else {
                flow_control_id.rank() + 1
            },
            well_formed(final(self)@),
            keeps_registrations(old(self)@, final(self)@),
            extends(old(self)@, final(self)@),
    {
        proof {
            use_type_invariant(&*self);
        }
        self.mark_taken(flow_control_id);
        proof {
            use_type_invariant(&*self);
        }
        let ghost key = endpoint@;
        let ghost before = self.producers@;
        let entry = ProducerEntry { endpoint, id: *flow_control_id };
        match self.find_producer(&entry.endpoint) {
            Some(i) => {
                let mut list: Vec<ProducerEntry> = Vec::new();
                core::mem::swap(&mut list, &mut self.producers);
                list[i] = entry;
                self.producers = list;
                proof {
                    let after = self.producers@;
                    assert forall|k: Seq<char>| has_producer(after, k) <==> has_producer(before, k) by {
                        if has_producer(after, k) {
                            let j = producer_place(after, k);
                            assert(before[j].endpoint@ == k);
                        }
                        if has_producer(before, k) {
                            let j = producer_place(before, k);
                            assert(after[j].endpoint@ == k);
                        }
                    }
                    assert(before[i as int].endpoint@ == key);
                    assert forall|k: Seq<char>| has_producer(after, k) implies (#[trigger] producers_of(
                        after,
                    )[k]) == producers_of(before).insert(key, *flow_control_id)[k] by {
                        let j = producer_place(after, k);
                        assert(after[j].endpoint@ == k);
                        if k == key {
                            assert(after[i as int].endpoint@ == key);
                            assert(j == i);
                        } else {
                            let j0 = producer_place(before, k);
                            assert(before[j].endpoint@ == k);
                            assert(before[j0].endpoint@ == k);
                            assert(j0 == j);
                        }
                    }
                    assert(producers_of(after) =~= producers_of(before).insert(key, *flow_control_id));
                }
            },
            None => {
                let mut list: Vec<ProducerEntry> = Vec::new();
                core::mem::swap(&mut list, &mut self.producers);
                list.push(entry);
                self.producers = list;
                proof {
                    let after = self.producers@;
                    let last = before.len() as int;
                    assert(after[last].endpoint@ == key);
                    assert forall|k: Seq<char>| has_producer(after, k) <==> (k == key || has_producer(
                        before,
                        k,
                    )) by {
                        if has_producer(after, k) {
                            let j = producer_place(after, k);
                            if j < last {
                                assert(before[j].endpoint@ == k);
                            }
                        }
                        if has_producer(before, k) {
                            let j = producer_place(before, k);
                            assert(after[j].endpoint@ == k);
                        }
                    }
                    assert forall|k: Seq<char>| has_producer(after, k) implies (#[trigger] producers_of(
                        after,
                    )[k]) == producers_of(before).insert(key, *flow_control_id)[k] by {
                        let j = producer_place(after, k);
                        assert(after[j].endpoint@ == k);
                        if k == key {
                            if j < last {
                                assert(before[j].endpoint@ == k);
                            }
                        } else {
                            let j0 = producer_place(before, k);
                            assert(before[j].endpoint@ == k);
                            assert(before[j0].endpoint@ == k);
                            assert(j0 == j);
                        }
                    }
                    assert(producers_of(after) =~= producers_of(before).insert(key, *flow_control_id));
                }
            },
        }
        proof {
            use_type_invariant(&*self);
            self.lemma_view_well_formed();
        }
    }

    /// Whether the registry can hand out an id for a flow spawned by `spawner`.
    pub fn can_spawn(&self, spawner: &FlowControlId) -> (free: bool)
        ensures
            free == (self@.issued <= u64::MAX && spawner.rank() < u64::MAX),
    {
        self.next <= 0xffff_ffff_ffff_ffff && spawner.number < 0xffff_ffff_ffff_ffff
    }

    /// Produces a fresh id for a flow that `spawner` spawns, and records the
    /// descent. Nothing is registered to the new id; the consumers of the
    /// spawner under the spawner policy accept what the new flow delivers.
    pub fn spawn_id(&mut self, spawner: &FlowControlId) -> (id: FlowControlId)
        requires
            old(self)@.issued <= u64::MAX,
            spawner.rank() < u64::MAX,
        ensures
            id.rank() == if old(self)@.issued > spawner.rank() {
                old(self)@.issued
            } else {
                spawner.rank() + 1
            },
            final(self)@.issued == id.rank() + 1,
            final(self)@.spawners == old(self)@.spawners.insert(id, *spawner),
            final(self)@.consumers == old(self)@.consumers,
            final(self)@.producers == old(self)@.producers,
            well_formed(final(self)@),
            keeps_registrations(old(self)@, final(self)@),
            extends(old(self)@, final(self)@),
            forall|endpoint: Seq<char>| !final(self)@.consumers.contains_key((endpoint, id)),
    {
        proof {
            use_type_invariant(&*self);
            self.lemma_view_well_formed();
        }
        self.mark_taken(spawner);
        let id = self.take_id();
        proof {
            use_type_invariant(&*self);
        }
        let ghost before = self.spawned@;
        assert(!has_spawn(before, id)) by {
            if has_spawn(before, id) {
                let j = spawn_place(before, id);
                assert(before[j].flow == id);
            }
        }
        let mut list: Vec<SpawnEntry> = Vec::new();
        core::mem::swap(&mut list, &mut self.spawned);
        list.push(SpawnEntry { flow: id, spawner: *spawner });
        self.spawned = list;
        proof {
            let after = self.spawned@;
            let last = before.len() as int;
            assert(after[last].flow == id);
            assert forall|k: FlowControlId| has_spawn(after, k) <==> (k == id || has_spawn(before, k)) by {
                if has_spawn(after, k) {
                    let j = spawn_place(after, k);
                    if j < last {
                        assert(before[j].flow == k);
                    }
                }
                if has_spawn(before, k) {
                    let j = spawn_place(before, k);
                    assert(after[j].flow == k);
                }
            }
            assert forall|k: FlowControlId| has_spawn(after, k) implies (#[trigger] spawners_of(after)[k])
                == spawners_of(before).insert(id, *spawner)[k] by {
                let j = spawn_place(after, k);
                assert(after[j].flow == k);
                if k == id {
                    if j < last {
                        assert(before[j].flow == k);
                    }
                } else {
                    let j0 = spawn_place(before, k);
                    assert(before[j].flow == k);
                    assert(before[j0].flow == k);
                    assert(j0 == j);
                }
            }
            assert(spawners_of(after) =~= spawners_of(before).insert(id, *spawner));
            use_type_invariant(&*self);
            self.lemma_view_well_formed();
        }
        id
    }

    /// The policy under which `endpoint` consumes the flow `id`, if it is registered for it.
    pub fn consumer_policy(
        &self,
        endpoint: &Address,
        id: &FlowControlId,
    ) -> (policy: Option<FlowControlPolicy>)
        ensures
            policy == if self@.consumers.contains_key((endpoint@, *id)) {
                Some(self@.consumers[(endpoint@, *id)])
            } else {
                None
            },
            well_formed(self@),
    {
        proof {
            use_type_invariant(self);
            self.lemma_view_well_formed();
        }
        match self.find_consumer(endpoint, id) {
            Some(i) => {
                proof {
                    let key = (endpoint@, *id);
                    let j = consumer_place(self.consumers@, key);
                    assert(consumer_key(self.consumers@[i as int]) == key);
                    assert(consumer_key(self.consumers@[j]) == key);
                    assert(j == i);
                }
                Some(self.consumers[i].policy)
            },
            None => None,
        }
    }

    /// The flow that `endpoint` produces, if it is registered as a producer.
    pub fn producer_flow(&self, endpoint: &Address) -> (flow: Option<FlowControlId>)
        ensures
            flow == if self@.producers.contains_key(endpoint@) {
                Some(self@.producers[endpoint@])
            } else {
                None
            },
            well_formed(self@),
    {
        proof {
            use_type_invariant(self);
            self.lemma_view_well_formed();
        }
        match self.find_producer(endpoint) {
            Some(i) => {
                proof {
                    let j = producer_place(self.producers@, endpoint@);
                    assert(self.producers@[i as int].endpoint@ == endpoint@);
                    assert(self.producers@[j].endpoint@ == endpoint@);
                    assert(j == i);
                }
                Some(self.producers[i].id)
            },
            None => None,
        }
    }

    /// The spawner that `flow` was spawned by, if it was spawned.
    pub fn spawner_of(&self, flow: &FlowControlId) -> (spawner: Option<FlowControlId>)
        ensures
            spawner == if self@.spawners.contains_key(*flow) {
                Some(self@.spawners[*flow])
            } else {
                None
            },
            well_formed(self@),
    {
        proof {
            use_type_invariant(self);
            self.lemma_view_well_formed();
        }
        match self.find_spawn(flow) {
            Some(i) => {
                proof {
                    let j = spawn_place(self.spawned@, *flow);
                    assert(self.spawned@[i as int].flow == *flow);
                    assert(self.spawned@[j].flow == *flow);
                    assert(j == i);
                }
                Some(self.spawned[i].spawner)
            },
            None => None,
        }
    }

    /// Whether a message tagged `tag` may be delivered to `endpoint`.
    pub fn is_allowed(&self, tag: &FlowControlId, endpoint: &Address) -> (yes: bool)
        ensures
            yes == allowed(self@, *tag, endpoint@),
            well_formed(self@),
    {
        proof {
            use_type_invariant(self);
            self.lemma_view_well_formed();
        }
        if self.consumer_policy(endpoint, tag).is_some() {
            return true;
        }
        let mut flow = *tag;
        loop
            invariant
                well_formed(self@),
                allowed(self@, *tag, endpoint@) == spawned_into(self@, endpoint@, flow),
            decreases flow.rank(),
        {
            match self.spawner_of(&flow) {
                Some(spawner) => {
                    match self.consumer_policy(endpoint, &spawner) {
                        Some(FlowControlPolicy::SpawnerAllowMultipleMessages) => {
                            return true;
                        },
                        _ => {},
                    }
                    flow = spawner;
                },
                None => {
                    return false;
                },
            }
        }
    }

    /// The answer of the registry to the delivery of a message to `endpoint`:
    /// a message without a tag is denied, a tagged one is allowed where the
    /// endpoint consumes the flow or a spawner it descends from.
    pub fn check_delivery(&self, tag: Option<&FlowControlId>, endpoint: &Address) -> (answer: Delivery)
        ensures
            answer == spec_check_delivery(
                self@,
                match tag {
                    Some(id) => Some(*id),
                    None => None,
                },
                endpoint@,
            ),
    {
        match tag {
            Some(id) => if self.is_allowed(id, endpoint) {
                Delivery::Allowed
            } else {
                Delivery::Denied
            },
            None => Delivery::Denied,
        }
    }
}

/// The answer at a hop guarded by `access` to a message tagged `tag` for
/// `endpoint`: everything passes where no flow control is configured, and
/// the registry decides where it is.
pub fn permits(
    access: AccessControl,
    registry: &FlowControls,
    tag: Option<&FlowControlId>,
    endpoint: &Address,
) -> (answer: Delivery)
    ensures
        answer == spec_permits(
            access,
            registry@,
            match tag {
                Some(id) => Some(*id),
                None => None,
            },
            endpoint@,
        ),
{
    match access {
        AccessControl::AllowAll => Delivery::Allowed,
        AccessControl::DenyAll => Delivery::Denied,
        AccessControl::FlowControl => registry.check_delivery(tag, endpoint),
    }
}

/// What the receiver of a message sees once the answer to its delivery is
/// known: the body, also where it is empty, if the delivery was allowed; a
/// time-out if it was denied, for a denied message is dropped and never
/// handed to anyone else.
pub fn receive(answer: Delivery, body: Vec<u8>) -> (r: Result<Vec<u8>, ReceiveError>)
    ensures
        match answer {
            Delivery::Allowed => r == Ok::<Vec<u8>, ReceiveError>(body),
            Delivery::Denied => r == Err::<Vec<u8>, ReceiveError>(ReceiveError::TimedOut),
        },
{
    match answer {
        Delivery::Allowed => Ok(body),
        Delivery::Denied => Err(ReceiveError::TimedOut),
    }
}

/// An endpoint that was never registered as a consumer receives nothing,
/// whatever tag a message carries.
pub proof fn lemma_default_deny(m: FlowControlsModel, tag: FlowControlId, endpoint: Seq<char>)
    requires
        forall|id: FlowControlId| !m.consumers.contains_key((endpoint, id)),
    ensures
        !allowed(m, tag, endpoint),
    decreases tag.rank(),
{
    if m.spawners.contains_key(tag) && m.spawners[tag].rank() < tag.rank() {
        lemma_default_deny(m, m.spawners[tag], endpoint);
    }
}

/// A flow that was not spawned delivers to an endpoint only where the
/// endpoint was registered for that very flow.
pub proof fn lemma_unregistered_pair_is_denied(m: FlowControlsModel, tag: FlowControlId, endpoint: Seq<char>)
    requires
        !m.consumers.contains_key((endpoint, tag)),
        !m.spawners.contains_key(tag),
    ensures
        !allowed(m, tag, endpoint),
{
}

/// An id that the registry has not handed out delivers nowhere.
pub proof fn lemma_untaken_id_is_denied(m: FlowControlsModel, id: FlowControlId, endpoint: Seq<char>)
    requires
        well_formed(m),
        id.rank() >= m.issued,
    ensures
        !allowed(m, id, endpoint),
{
}

/// Once an endpoint is registered for a flow, messages tagged with that flow
/// reach it in every later state of the registry.
pub proof fn lemma_registration_stays_allowed(
    before: FlowControlsModel,
    after: FlowControlsModel,
    id: FlowControlId,
    endpoint: Seq<char>,
)
    requires
        before.consumers.contains_key((endpoint, id)),
        keeps_registrations(before, after),
    ensures
        allowed(before, id, endpoint),
        allowed(after, id, endpoint),
{
}

/// Everything that `before` holds, `after` holds too, under the same policy
/// and with the same descent.
pub open spec fn extends(before: FlowControlsModel, after: FlowControlsModel) -> bool {
    &&& before.consumers.submap_of(after.consumers)
    &&& before.spawners.submap_of(after.spawners)
}

/// A descent that leads to a consumer under the spawner policy still leads
/// there when the registry has grown.
pub proof fn lemma_growth_keeps_descent(
    before: FlowControlsModel,
    after: FlowControlsModel,
    flow: FlowControlId,
    endpoint: Seq<char>,
)
    requires
        extends(before, after),
        spawned_into(before, endpoint, flow),
    ensures
        spawned_into(after, endpoint, flow),
    decreases flow.rank(),
{
    let spawner = before.spawners[flow];
    assert(before.spawners.dom().contains(flow));
    assert(after.spawners.contains_key(flow) && after.spawners[flow] == spawner);
    if before.consumers.contains_key((endpoint, spawner)) && before.consumers[(endpoint, spawner)]
        == FlowControlPolicy::SpawnerAllowMultipleMessages {
        assert(before.consumers.dom().contains((endpoint, spawner)));
        assert(after.consumers.contains_key((endpoint, spawner)));
    } else {
        lemma_growth_keeps_descent(before, after, spawner, endpoint);
    }
}

/// What is allowed stays allowed as long as the registry only grows: no
/// later registration, no later flow and no later id takes a delivery away.
pub proof fn lemma_growth_keeps_allowed(
    before: FlowControlsModel,
    after: FlowControlsModel,
    tag: FlowControlId,
    endpoint: Seq<char>,
)
    requires
        extends(before, after),
        allowed(before, tag, endpoint),
    ensures
        allowed(after, tag, endpoint),
{
    if before.consumers.contains_key((endpoint, tag)) {
        assert(before.consumers.dom().contains((endpoint, tag)));
        assert(after.consumers.contains_key((endpoint, tag)));
    } else {
        lemma_growth_keeps_descent(before, after, tag, endpoint);
    }
}

/// Keeping registrations carries over any number of steps.
pub proof fn lemma_keeps_registrations_is_transitive(
    a: FlowControlsModel,
    b: FlowControlsModel,
    c: FlowControlsModel,
)
    requires
        keeps_registrations(a, b),
        keeps_registrations(b, c),
    ensures
        keeps_registrations(a, c),
        keeps_registrations(a, a),
{
}

/// A flow delivers to the consumers of its spawner that registered under
/// the spawner policy, and to theirs in turn up the line of descent.
pub proof fn lemma_spawned_flow_is_allowed(
    m: FlowControlsModel,
    flow: FlowControlId,
    endpoint: Seq<char>,
)
    requires
        well_formed(m),
        m.spawners.contains_key(flow),
        m.consumers.contains_key((endpoint, m.spawners[flow])),
        m.consumers[(endpoint, m.spawners[flow])] == FlowControlPolicy::SpawnerAllowMultipleMessages,
    ensures
        allowed(m, flow, endpoint),
{
}

} // verus!
