//! Addresses of endpoints and routes made of them.

use vstd::prelude::*;
use vstd::std_specs::cmp::PartialEqSpecImpl;
use vstd::string::StringExecFns;

verus! {

/// The address of an endpoint on a node.
#[derive(Debug)]
pub struct Address {
    name: String,
}

impl View for Address {
    type V = Seq<char>;

    closed spec fn view(&self) -> Seq<char> {
        self.name@
    }
}

impl Clone for Address {
    fn clone(&self) -> (copy: Self)
        ensures
            copy@ == self@,
    {
        Address { name: self.name.clone() }
    }
}

impl PartialEq for Address {
    fn eq(&self, o: &Self) -> (same: bool) {
        self.name == o.name
    }
}

impl PartialEqSpecImpl for Address {
    open spec fn obeys_eq_spec() -> bool {
        true
    }

    open spec fn eq_spec(&self, o: &Self) -> bool {
        self@ == o@
    }
}

impl Eq for Address {

}

impl Address {
    /// The address called `name`.
    pub fn new(name: String) -> (address: Self)
        ensures
            address@ == name@,
    {
        Address { name }
    }

    /// The address called `name`.
    pub fn from_str(name: &str) -> (address: Self)
        ensures
            address@ == name@,
    {
        Address { name: String::from_str(name) }
    }

    /// The address as text.
    pub fn as_str(&self) -> (name: &str)
        ensures
            name@ == self@,
    {
        self.name.as_str()
    }
}

/// The names of a list of addresses, in order.
pub open spec fn hops(addresses: Seq<Address>) -> Seq<Seq<char>> {
    addresses.map_values(|a: Address| a@)
}

/// An ordered sequence of address hops a message traverses.
#[derive(Debug)]
pub struct Route {
    hops: Vec<Address>,
}

impl View for Route {
    type V = Seq<Seq<char>>;

    closed spec fn view(&self) -> Seq<Seq<char>> {
        hops(self.hops@)
    }
}

/// A copy of a list of addresses.
fn clone_addresses(list: &Vec<Address>) -> (copy: Vec<Address>)
    ensures
        hops(copy@) == hops(list@),
{
    let mut copy: Vec<Address> = Vec::new();
    let mut i: usize = 0;
    while i < list.len()
        invariant
            i <= list.len(),
            copy@.len() == i,
            forall|j: int| 0 <= j < i ==> (#[trigger] copy@[j])@ == list@[j]@,
        decreases list.len() - i,
    {
        copy.push(list[i].clone());
        i = i + 1;
    }
    assert(hops(copy@) =~= hops(list@));
    copy
}

impl Clone for Route {
    fn clone(&self) -> (copy: Self)
        ensures
            copy@ == self@,
    {
        Route { hops: clone_addresses(&self.hops) }
    }
}

impl Route {
    /// The route without any hop.
    pub fn new() -> (route: Self)
        ensures
            route@ == Seq::<Seq<char>>::empty(),
    {
        let route = Route { hops: Vec::new() };
        assert(route@ =~= Seq::<Seq<char>>::empty());
        route
    }

    /// The route through `hops`, in order.
    pub fn from_hops(hops: Vec<Address>) -> (route: Self)
        ensures
            route@ == self::hops(hops@),
    {
        Route { hops }
    }

    /// The number of hops.
    pub fn len(&self) -> (n: usize)
        ensures
            n == self@.len(),
    {
        self.hops.len()
    }

    /// Whether the route has no hop.
    pub fn is_empty(&self) -> (empty: bool)
        ensures
            empty == (self@.len() == 0),
    {
        self.hops.len() == 0
    }

    /// The first hop, where there is one.
    pub fn next(&self) -> (hop: Option<&Address>)
        ensures
            match hop {
                Some(address) => self@.len() > 0 && address@ == self@[0],
                None => self@.len() == 0,
            },
    {
        if self.hops.len() == 0 {
            None
        } else {
            Some(&self.hops[0])
        }
    }

    /// The hop at place `i`.
    pub fn hop(&self, i: usize) -> (address: &Address)
        requires
            i < self@.len(),
        ensures
            address@ == self@[i as int],
    {
        &self.hops[i]
    }

    /// The route with `address` as one more hop at its end.
    pub fn append(self, address: Address) -> (route: Self)
        ensures
            route@ == self@.push(address@),
    {
        let mut list = self.hops;
        let ghost before = hops(list@);
        list.push(address);
        assert(hops(list@) =~= before.push(address@));
        Route { hops: list }
    }

    /// The route made of the hops of `first`, then those of `second`.
    pub fn concat(first: &Route, second: &Route) -> (route: Self)
        ensures
            route@ == first@ + second@,
    {
        let mut list = clone_addresses(&first.hops);
        let mut i: usize = 0;
        while i < second.hops.len()
            invariant
                i <= second.hops.len(),
                hops(list@) == first@ + second@.take(i as int),
            decreases second.hops.len() - i,
        {
            let ghost before = hops(list@);
            list.push(second.hops[i].clone());
            assert(hops(list@) =~= before.push(second@[i as int]));
            assert(second@.take(i + 1) =~= second@.take(i as int).push(second@[i as int]));
            assert(first@ + second@.take(i + 1) =~= (first@ + second@.take(i as int)).push(
                second@[i as int],
            ));
            i = i + 1;
        }
        assert(second@.take(second@.len() as int) =~= second@);
        Route { hops: list }
    }

    /// The route without its first hop; the empty route stays empty.
    pub fn without_first(&self) -> (route: Self)
        ensures
            route@ == if self@.len() == 0 {
                self@
            } else {
                self@.drop_first()
            },
    {
        let mut list: Vec<Address> = Vec::new();
        let mut i: usize = 1;
        while i < self.hops.len()
            invariant
                1 <= i,
                i <= self.hops.len() || self.hops.len() == 0,
                self.hops.len() > 0 ==> list@.len() == i - 1,
                self.hops.len() == 0 ==> list@.len() == 0,
                forall|j: int| 0 <= j < list@.len() ==> (#[trigger] list@[j])@ == self.hops@[j + 1]@,
            decreases self.hops.len() - i,
        {
            list.push(self.hops[i].clone());
            i = i + 1;
        }
        let route = Route { hops: list };
        if self.hops.len() == 0 {
            assert(route@ =~= self@);
        } else {
            assert(route@ =~= self@.drop_first());
        }
        route
    }
}

} // verus!
