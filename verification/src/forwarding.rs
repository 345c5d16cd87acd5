//! Forwarding: a relay keeps, for each forwarding address, the route back to
//! the node that registered it, and re-routes what is addressed there.

use vstd::prelude::*;
use vstd::string::StringExecFns;
use crate::flow_control::{
    permits,
    spec_permits,
    AccessControl,
    Delivery,
    FlowControlId,
    FlowControls,
};
use crate::routing::{Address, Route};

verus! {

/// Why the relay did not do what it was asked.
#[derive(Clone, Copy, Debug, PartialEq, Eq, Structural)]
pub enum ForwardingError {
    /// The inbound access control of the service refused the registration.
    NotAuthorized,
    /// The forwarding address asked for is in use.
    AddressTaken,
    /// The message is addressed to nothing, or to no forwarding address of this service.
    UnknownForwarder,
}

/// What the relay keeps for one forwarding address.
pub struct ForwarderModel {
    /// The route from the relay back to the registrant.
    pub route: Seq<Seq<char>>,
    /// The flow over which the registration came, if it came over one.
    pub owner: Option<FlowControlId>,
}

/// What a forwarding service is.
pub struct ForwardingServiceModel {
    pub address: Seq<char>,
    pub inbound: AccessControl,
    pub outbound: AccessControl,
    pub forwarders: Map<Seq<char>, ForwarderModel>,
}

struct ForwarderEntry {
    address: Address,
    route: Route,
    owner: Option<FlowControlId>,
}

spec fn has_forwarder(entries: Seq<ForwarderEntry>, address: Seq<char>) -> bool {
    exists|i: int| 0 <= i < entries.len() && (#[trigger] entries[i]).address@ == address
}

spec fn forwarder_place(entries: Seq<ForwarderEntry>, address: Seq<char>) -> int {
    choose|i: int| 0 <= i < entries.len() && (#[trigger] entries[i]).address@ == address
}

spec fn entry_model(entry: ForwarderEntry) -> ForwarderModel {
    ForwarderModel { route: entry.route@, owner: entry.owner }
}

spec fn forwarders_of(entries: Seq<ForwarderEntry>) -> Map<Seq<char>, ForwarderModel> {
    Map::new(
        |address: Seq<char>| has_forwarder(entries, address),
        |address: Seq<char>| entry_model(entries[forwarder_place(entries, address)]),
    )
}

spec fn distinct_addresses(entries: Seq<ForwarderEntry>) -> bool {
    forall|i: int, j: int|
        0 <= i < j < entries.len() ==> (#[trigger] entries[i]).address@ != (#[trigger] entries[j]).address@
}

/// The directory of forwarders on a relay node.
pub struct ForwardingService {
    address: Address,
    inbound: AccessControl,
    outbound: AccessControl,
    forwarders: Vec<ForwarderEntry>,
}

impl View for ForwardingService {
    type V = ForwardingServiceModel;

    closed spec fn view(&self) -> ForwardingServiceModel {
        ForwardingServiceModel {
            address: self.address@,
            inbound: self.inbound,
            outbound: self.outbound,
            forwarders: forwarders_of(self.forwarders@),
        }
    }
}

/// The route a message takes on after the relay: the registrant's route in
/// place of the forwarding address, then the hops that followed it.
pub open spec fn spec_forwarded(forwarder: ForwarderModel, onward: Seq<Seq<char>>) -> Seq<Seq<char>> {
    forwarder.route + onward.drop_first()
}

/// What forwarding a message along `onward` comes to.
pub open spec fn spec_forward(
    m: ForwardingServiceModel,
    onward: Seq<Seq<char>>,
) -> Result<Seq<Seq<char>>, ForwardingError> {
    if onward.len() == 0 || !m.forwarders.contains_key(onward[0]) {
        Err(ForwardingError::UnknownForwarder)
    } else {
        Ok(spec_forwarded(m.forwarders[onward[0]], onward))
    }
}

/// The forwarders that stay when the flow `flow` ends: those it does not own.
pub open spec fn spec_without_flow(
    forwarders: Map<Seq<char>, ForwarderModel>,
    flow: FlowControlId,
) -> Map<Seq<char>, ForwarderModel> {
    Map::new(
        |address: Seq<char>|
            forwarders.contains_key(address) && forwarders[address].owner != Some(flow),
        |address: Seq<char>| forwarders[address],
    )
}

impl ForwardingService {
    #[verifier::type_invariant]
    spec fn inv(self) -> bool {
        distinct_addresses(self.forwarders@)
    }

    /// Starts the directory at `address`, with the access control that
    /// guards registrations and the one kept for what leaves the relay.
    pub fn create(address: Address, inbound: AccessControl, outbound: AccessControl) -> (service: Self)
        ensures
            service@.address == address@,
            service@.inbound == inbound,
            service@.outbound == outbound,
            service@.forwarders == Map::<Seq<char>, ForwarderModel>::empty(),
    {
        let service = ForwardingService { address, inbound, outbound, forwarders: Vec::new() };
        assert(service@.forwarders =~= Map::<Seq<char>, ForwarderModel>::empty());
        service
    }

    /// The address of the service.
    pub fn address(&self) -> (address: &Address)
        ensures
            address@ == self@.address,
    {
        &self.address
    }

    /// The access control that guards registrations.
    pub fn inbound_access_control(&self) -> (access: AccessControl)
        ensures
            access == self@.inbound,
    {
        self.inbound
    }

    /// The access control kept for what leaves the relay.
    pub fn outbound_access_control(&self) -> (access: AccessControl)
        ensures
            access == self@.outbound,
    {
        self.outbound
    }

    /// The number of forwarders.
    pub fn len(&self) -> (n: usize)
        ensures
            n == self@.forwarders.dom().len(),
            self@.forwarders.dom().finite(),
    {
        proof {
            use_type_invariant(self);
            lemma_domain_size(self.forwarders@);
        }
        self.forwarders.len()
    }

    fn find(&self, address: &Address) -> (place: Option<usize>)
        ensures
            match place {
                Some(i) => i < self.forwarders@.len() && self.forwarders@[i as int].address@
                    == address@,
                None => !has_forwarder(self.forwarders@, address@),
            },
    {
        let mut i: usize = 0;
        while i < self.forwarders.len()
            invariant
                i <= self.forwarders@.len(),
                forall|j: int| 0 <= j < i ==> (#[trigger] self.forwarders@[j]).address@ != address@,
            decreases self.forwarders.len() - i,
        {
            if self.forwarders[i].address == *address {
                return Some(i);
            }
            i = i + 1;
        }
        None
    }

    /// Whether `address` is a forwarding address of this service.
    pub fn is_registered(&self, address: &Address) -> (yes: bool)
        ensures
            yes == self@.forwarders.contains_key(address@),
    {
        self.find(address).is_some()
    }

    /// The route back to the registrant of `address`, if it is registered.
    pub fn route_of(&self, address: &Address) -> (route: Option<&Route>)
        ensures
            match route {
                Some(r) => self@.forwarders.contains_key(address@) && r@
                    == self@.forwarders[address@].route,
                None => !self@.forwarders.contains_key(address@),
            },
    {
        proof {
            use_type_invariant(self);
        }
        match self.find(address) {
            Some(i) => {
                proof {
                    let j = forwarder_place(self.forwarders@, address@);
                    assert(self.forwarders@[i as int].address@ == address@);
                    assert(self.forwarders@[j].address@ == address@);
                    assert(j == i);
                }
                Some(&self.forwarders[i].route)
            },
            None => None,
        }
    }

    /// Registers `address` as a forwarding address whose traffic goes back
    /// along `return_route`. The registration arrived tagged with `tag`; the
    /// inbound access control of the service decides first whether it is
    /// accepted at all, and an address in use is not given away a second time.
    pub fn register(
        &mut self,
        registry: &FlowControls,
        tag: Option<&FlowControlId>,
        address: Address,
        return_route: Route,
    ) -> (r: Result<Address, ForwardingError>)
        ensures
            final(self)@.address == old(self)@.address,
            final(self)@.inbound == old(self)@.inbound,
            final(self)@.outbound == old(self)@.outbound,
            match r {
                Ok(given) => {
                    &&& given@ == address@
                    &&& spec_permits(
                        old(self)@.inbound,
                        registry@,
                        match tag {
                            Some(id) => Some(*id),
                            None => None,
                        },
                        old(self)@.address,
                    ) == Delivery::Allowed
                    &&& !old(self)@.forwarders.contains_key(address@)
                    &&& final(self)@.forwarders == old(self)@.forwarders.insert(
                        address@,
                        ForwarderModel {
                            route: return_route@,
                            owner: match tag {
                                Some(id) => Some(*id),
                                None => None,
                            },
                        },
                    )
                },
                Err(e) => {
                    &&& final(self)@.forwarders == old(self)@.forwarders
                    &&& e == if spec_permits(
                        old(self)@.inbound,
                        registry@,
                        match tag {
                            Some(id) => Some(*id),
                            None => None,
                        },
                        old(self)@.address,
                    ) == Delivery::Denied {
                        ForwardingError::NotAuthorized
                    } else {
                        ForwardingError::AddressTaken
                    }
                    &&& e == ForwardingError::AddressTaken ==> old(self)@.forwarders.contains_key(
                        address@,
                    )
                },
            },
    {
        proof {
            use_type_invariant(&*self);
        }
        match permits(self.inbound, registry, tag, &self.address) {
            Delivery::Denied => {
                return Err(ForwardingError::NotAuthorized);
            },
            Delivery::Allowed => {},
        }
        if self.find(&address).is_some() {
            return Err(ForwardingError::AddressTaken);
        }
        let given = address.clone();
        let ghost before = self.forwarders@;
        let ghost key = address@;
        let owner = match tag {
            Some(id) => Some(*id),
            None => None,
        };
        let ghost added = ForwarderModel { route: return_route@, owner };
        let mut list: Vec<ForwarderEntry> = Vec::new();
        core::mem::swap(&mut list, &mut self.forwarders);
        list.push(ForwarderEntry { address, route: return_route, owner });
        self.forwarders = list;
        proof {
            let after = self.forwarders@;
            let last = before.len() as int;
            assert(after[last].address@ == key);
            assert forall|k: Seq<char>| has_forwarder(after, k) <==> (k == key || has_forwarder(before, k)) by {
                if has_forwarder(after, k) {
                    let j = forwarder_place(after, k);
                    if j < last {
                        assert(before[j].address@ == k);
                    }
                }
                if has_forwarder(before, k) {
                    let j = forwarder_place(before, k);
                    assert(after[j].address@ == k);
                }
            }
            assert forall|k: Seq<char>| has_forwarder(after, k) implies (#[trigger] forwarders_of(after)[k])
                == forwarders_of(before).insert(key, added)[k] by {
                let j = forwarder_place(after, k);
                assert(after[j].address@ == k);
                if k == key {
                    if j < last {
                        assert(before[j].address@ == k);
                    }
                } else {
                    let j0 = forwarder_place(before, k);
                    assert(before[j].address@ == k);
                    assert(before[j0].address@ == k);
                    assert(j0 == j);
                }
            }
            assert(forwarders_of(after) =~= forwarders_of(before).insert(key, added));
        }
        Ok(given)
    }

    /// Re-routes a message that travels along `onward`: its first hop must be
    /// a forwarding address of this service, and is replaced by the route
    /// back to the registrant. The relay looks at nothing else: whether the
    /// message may be delivered is for the destination to decide.
    pub fn forward(&self, onward: &Route) -> (r: Result<Route, ForwardingError>)
        ensures
            match spec_forward(self@, onward@) {
                Ok(route) => r is Ok && r.unwrap()@ == route,
                Err(e) => r == Err::<Route, ForwardingError>(e),
            },
    {
        match onward.next() {
            None => Err(ForwardingError::UnknownForwarder),
            Some(first) => match self.route_of(first) {
                None => Err(ForwardingError::UnknownForwarder),
                Some(back) => {
                    let rest = onward.without_first();
                    Ok(Route::concat(back, &rest))
                },
            },
        }
    }

    /// Ends every forwarder that was registered over the flow `flow`; the
    /// others stay as they are.
    pub fn disconnect(&mut self, flow: &FlowControlId)
        ensures
            final(self)@.forwarders == spec_without_flow(old(self)@.forwarders, *flow),
            final(self)@.address == old(self)@.address,
            final(self)@.inbound == old(self)@.inbound,
            final(self)@.outbound == old(self)@.outbound,
    {
        proof {
            use_type_invariant(&*self);
        }
        let mut list: Vec<ForwarderEntry> = Vec::new();
        core::mem::swap(&mut list, &mut self.forwarders);
        let ghost before = list@;
        let mut kept: Vec<ForwarderEntry> = Vec::new();
        let ghost mut origin: Seq<int> = Seq::empty();
        while list.len() > 0
            invariant
                distinct_addresses(before),
                list@.len() <= before.len(),
                list@ == before.take(list@.len() as int),
                origin.len() == kept@.len(),
                forall|k: int|
                    0 <= k < kept@.len() ==> list@.len() <= (#[trigger] origin[k]) < before.len()
                        && kept@[k] == before[origin[k]] && kept@[k].owner != Some(*flow),
                forall|k: int, l: int|
                    0 <= k < l < kept@.len() ==> (#[trigger] origin[k]) != (#[trigger] origin[l]),
                forall|j: int|
                    list@.len() <= j < before.len() && (#[trigger] before[j]).owner != Some(*flow)
                        ==> exists|k: int| 0 <= k < kept@.len() && (#[trigger] origin[k]) == j,
            decreases list.len(),
        {
            let ghost n = list@.len() as int;
            let entry = list.pop().unwrap();
            assert(entry == before[n - 1]);
            assert(list@ =~= before.take(n - 1));
            let ghost old_origin = origin;
            let ghost old_kept = kept@;
            let keep = match entry.owner {
                Some(owner) => owner != *flow,
                None => true,
            };
            if keep {
                kept.push(entry);
                proof {
                    origin = origin.push(n - 1);
                    assert forall|j: int|
                        list@.len() <= j < before.len() && (#[trigger] before[j]).owner != Some(
                            *flow,
                        ) implies exists|k: int| 0 <= k < kept@.len() && (#[trigger] origin[k]) == j by {
                        if j == n - 1 {
                            assert(origin[old_kept.len() as int] == j);
                        } else {
                            let k = choose|k: int| 0 <= k < old_kept.len() && (#[trigger] old_origin[k]) == j;
                            assert(origin[k] == j);
                        }
                    }
                }
            } else {
                proof {
                    assert forall|j: int|
                        list@.len() <= j < before.len() && (#[trigger] before[j]).owner != Some(
                            *flow,
                        ) implies exists|k: int| 0 <= k < kept@.len() && (#[trigger] origin[k]) == j by {
                        let k = choose|k: int| 0 <= k < old_kept.len() && (#[trigger] old_origin[k]) == j;
                        assert(origin[k] == j);
                    }
                }
            }
        }
        proof {
            let after = kept@;
            assert(distinct_addresses(after)) by {
                assert forall|k: int, l: int| 0 <= k < l < after.len() implies (#[trigger] after[k]).address@
                    != (#[trigger] after[l]).address@ by {
                    let a = origin[k];
                    let b = origin[l];
                    assert(a != b);
                    if a < b {
                        assert(before[a].address@ != before[b].address@);
                    } else {
                        assert(before[b].address@ != before[a].address@);
                    }
                }
            }
            let target = spec_without_flow(forwarders_of(before), *flow);
            assert forall|a: Seq<char>| has_forwarder(after, a) <==> target.contains_key(a) by {
                if has_forwarder(after, a) {
                    let k = forwarder_place(after, a);
                    assert(after[k].address@ == a);
                    let j = origin[k];
                    assert(before[j].address@ == a);
                    let j0 = forwarder_place(before, a);
                    assert(before[j0].address@ == a);
                    assert(j0 == j) by {
                        if j0 < j {
                            assert(before[j0].address@ != before[j].address@);
                        } else if j < j0 {
                            assert(before[j].address@ != before[j0].address@);
                        }
                    }
                }
                if target.contains_key(a) {
                    let j = forwarder_place(before, a);
                    assert(before[j].address@ == a);
                    let k = choose|k: int| 0 <= k < kept@.len() && (#[trigger] origin[k]) == j;
                    assert(after[k].address@ == a);
                }
            }
            assert forall|a: Seq<char>| has_forwarder(after, a) implies (#[trigger] forwarders_of(after)[a])
                == target[a] by {
                let k = forwarder_place(after, a);
                assert(after[k].address@ == a);
                let j = origin[k];
                let j0 = forwarder_place(before, a);
                assert(before[j].address@ == a);
                assert(before[j0].address@ == a);
                assert(j0 == j) by {
                    if j0 < j {
                        assert(before[j0].address@ != before[j].address@);
                    } else if j < j0 {
                        assert(before[j].address@ != before[j0].address@);
                    }
                }
            }
            assert(forwarders_of(after) =~= target);
        }
        self.forwarders = kept;
    }
}

/// A list of entries with distinct addresses has as many addresses as entries.
proof fn lemma_domain_size(entries: Seq<ForwarderEntry>)
    requires
        distinct_addresses(entries),
    ensures
        forwarders_of(entries).dom().finite(),
        forwarders_of(entries).dom().len() == entries.len(),
    decreases entries.len(),
{
    if entries.len() == 0 {
        assert(forwarders_of(entries).dom() =~= Set::<Seq<char>>::empty());
    } else {
        let init = entries.drop_last();
        let last = entries.last();
        assert(distinct_addresses(init)) by {
            assert forall|i: int, j: int| 0 <= i < j < init.len() implies (#[trigger] init[i]).address@ != (
            #[trigger] init[j]).address@ by {
                assert(entries[i].address@ != entries[j].address@);
            }
        }
        lemma_domain_size(init);
        assert(!has_forwarder(init, last.address@)) by {
            if has_forwarder(init, last.address@) {
                let j = forwarder_place(init, last.address@);
                assert(entries[j].address@ != entries[entries.len() - 1].address@);
            }
        }
        assert(forwarders_of(entries).dom() =~= forwarders_of(init).dom().insert(last.address@)) by {
            assert forall|a: Seq<char>| has_forwarder(entries, a) <==> (a == last.address@
                || has_forwarder(init, a)) by {
                if has_forwarder(entries, a) {
                    let j = forwarder_place(entries, a);
                    if j < init.len() {
                        assert(init[j].address@ == a);
                    }
                }
                if has_forwarder(init, a) {
                    let j = forwarder_place(init, a);
                    assert(entries[j].address@ == a);
                }
                if a == last.address@ {
                    assert(entries[entries.len() - 1].address@ == a);
                }
            }
        }
    }
}

/// The address under which the forwarding service of a relay listens.
pub fn forwarding_service_address() -> (address: Address)
    ensures
        address@ == "forwarding_service"@,
{
    Address::from_str("forwarding_service")
}

/// The route along which a node registers with the forwarding service of a
/// relay: the route to the relay, then the address of the service.
pub fn registration_route(route_to_relay: &Route) -> (route: Route)
    ensures
        route@ == route_to_relay@.push("forwarding_service"@),
{
    route_to_relay.clone().append(forwarding_service_address())
}

/// How a node wants to be reachable at the relay.
#[derive(Debug)]
pub struct RemoteForwarderOptions {
    alias: Option<String>,
}

impl RemoteForwarderOptions {
    /// The options of an ephemeral forwarder, whose address the registrant generates.
    pub fn new() -> (options: Self)
        ensures
            options.spec_alias() is None,
    {
        RemoteForwarderOptions { alias: None }
    }

    /// The options of a forwarder under the stable name `alias`.
    pub fn with_alias(alias: String) -> (options: Self)
        ensures
            options.spec_alias() == Some(alias@),
    {
        RemoteForwarderOptions { alias: Some(alias) }
    }

    /// The stable name asked for, if one is.
    pub closed spec fn spec_alias(&self) -> Option<Seq<char>> {
        match self.alias {
            Some(alias) => Some(alias@),
            None => None,
        }
    }

    /// The forwarding address to ask the relay for: the stable name behind
    /// the prefix of all forwarding addresses where one is asked for, the
    /// address `generated` by the registrant otherwise.
    pub open spec fn spec_requested_address(&self, generated: Seq<char>) -> Seq<char> {
        match self.spec_alias() {
            Some(alias) => "forward_to_"@ + alias,
            None => generated,
        }
    }

    /// The forwarding address to ask the relay for.
    pub fn requested_address(&self, generated: Address) -> (address: Address)
        ensures
            address@ == self.spec_requested_address(generated@),
    {
        match &self.alias {
            Some(alias) => {
                let mut name = String::from_str("forward_to_");
                name.append(alias.as_str());
                Address::new(name)
            },
            None => generated,
        }
    }
}

/// What a node knows of its forwarder once the relay has answered.
#[derive(Debug)]
pub struct RemoteForwarderInfo {
    forwarding_route: Route,
    remote_address: Address,
    worker_address: Address,
    flow_control_id: Option<FlowControlId>,
}

/// The model of a [`RemoteForwarderInfo`].
pub struct RemoteForwarderInfoModel {
    pub forwarding_route: Seq<Seq<char>>,
    pub remote_address: Seq<char>,
    pub worker_address: Seq<char>,
    pub flow_control_id: Option<FlowControlId>,
}

impl View for RemoteForwarderInfo {
    type V = RemoteForwarderInfoModel;

    closed spec fn view(&self) -> RemoteForwarderInfoModel {
        RemoteForwarderInfoModel {
            forwarding_route: self.forwarding_route@,
            remote_address: self.remote_address@,
            worker_address: self.worker_address@,
            flow_control_id: self.flow_control_id,
        }
    }
}

impl RemoteForwarderInfo {
    /// The facts of a forwarder: the route to it, the forwarding address the
    /// relay allocated, the address of the local worker that receives what is
    /// forwarded, and the flow over which the relay is reached, if any.
    pub fn new(
        forwarding_route: Route,
        remote_address: Address,
        worker_address: Address,
        flow_control_id: Option<FlowControlId>,
    ) -> (info: Self)
        ensures
            info@.forwarding_route == forwarding_route@,
            info@.remote_address == remote_address@,
            info@.worker_address == worker_address@,
            info@.flow_control_id == flow_control_id,
    {
        Self { forwarding_route, remote_address, worker_address, flow_control_id }
    }

    /// The route to the forwarder on the relay.
    pub fn forwarding_route(&self) -> (route: &Route)
        ensures
            route@ == self@.forwarding_route,
    {
        &self.forwarding_route
    }

    /// The forwarding address on the relay: the one hop a sender needs.
    pub fn remote_address(&self) -> (address: &Address)
        ensures
            address@ == self@.remote_address,
    {
        &self.remote_address
    }

    /// The address of the local worker that receives what is forwarded.
    pub fn worker_address(&self) -> (address: &Address)
        ensures
            address@ == self@.worker_address,
    {
        &self.worker_address
    }

    /// The flow over which the relay is reached, if any.
    pub fn flow_control_id(&self) -> (flow: Option<FlowControlId>)
        ensures
            flow == self@.flow_control_id,
    {
        self.flow_control_id
    }
}

/// A message addressed to a forwarding address alone arrives along exactly
/// the route that the registrant gave.
pub proof fn lemma_forward_single_hop(m: ForwardingServiceModel, address: Seq<char>)
    requires
        m.forwarders.contains_key(address),
    ensures
        spec_forward(m, seq![address]) == Ok::<Seq<Seq<char>>, ForwardingError>(
            m.forwarders[address].route,
        ),
{
    assert(seq![address].drop_first() =~= Seq::<Seq<char>>::empty());
    assert(m.forwarders[address].route + Seq::<Seq<char>>::empty() =~= m.forwarders[address].route);
}

/// What follows the forwarding address on a message's route still follows
/// after the relay, in the same order.
pub proof fn lemma_forward_keeps_the_rest(m: ForwardingServiceModel, onward: Seq<Seq<char>>)
    requires
        onward.len() > 0,
        m.forwarders.contains_key(onward[0]),
    ensures
        spec_forward(m, onward) is Ok,
        spec_forward(m, onward).unwrap().len() == m.forwarders[onward[0]].route.len() + onward.len()
            - 1,
        forall|i: int|
            1 <= i < onward.len() ==> spec_forward(m, onward).unwrap()[m.forwarders[onward[0]].route.len()
                + i - 1] == #[trigger] onward[i],
{
}

} // verus!
