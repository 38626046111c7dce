//! Internet addresses, their subnets, and tables keyed by them.
use std::collections::HashMap;

use vstd::prelude::*;

verus! {

/// An internet address as a number in network byte order.
#[derive(Clone, Copy, Debug, PartialEq, Eq, Structural)]
pub enum IpAddr {
    V4(u32),
    V6(u128),
}

impl IpAddr {
    /// The IPv4 address with these four octets.
    pub fn v4(a: u8, b: u8, c: u8, d: u8) -> (r: Self)
        ensures
            r == IpAddr::V4((((a * 256 + b) * 256 + c) * 256 + d) as u32),
    {
        IpAddr::V4((((a as u32) * 256 + (b as u32)) * 256 + (c as u32)) * 256 + (d as u32))
    }
}

/// A block of addresses that count as neighbours.
#[derive(Clone, Copy, Debug, PartialEq, Eq, Structural)]
pub struct SubnetKey {
    /// The first address of the block.
    pub addr: IpAddr,
    pub prefix_len: u8,
}

/// The block that an address belongs to: the IPv4 addresses that agree in
/// their first 24 bits, the IPv6 addresses that agree in their first 64.
pub open spec fn subnet_of(ip: IpAddr) -> SubnetKey {
    match ip {
        IpAddr::V4(a) => SubnetKey { addr: IpAddr::V4((a - a % 256) as u32), prefix_len: 24 },
        IpAddr::V6(a) => SubnetKey {
            addr: IpAddr::V6((a - a % 0x1_0000_0000_0000_0000) as u128),
            prefix_len: 64,
        },
    }
}

pub fn subnet_key(ip: IpAddr) -> (r: SubnetKey)
    ensures
        r == subnet_of(ip),
{
    match ip {
        IpAddr::V4(a) => SubnetKey { addr: IpAddr::V4(a - a % 256), prefix_len: 24 },
        IpAddr::V6(a) => SubnetKey {
            addr: IpAddr::V6(a - a % 0x1_0000_0000_0000_0000),
            prefix_len: 64,
        },
    }
}

/// Two blocks are the same if they start at the same address.
pub proof fn law_subnet_is_its_address(a: IpAddr, b: IpAddr)
    ensures
        subnet_of(a) == subnet_of(b) <==> subnet_of(a).addr == subnet_of(b).addr,
{
}

/// The keys of a table, each once.
fn keys_of<K: Copy + Eq + std::hash::Hash, V>(table: &HashMap<K, V>) -> (r: Vec<K>)
    requires
        vstd::std_specs::hash::obeys_key_model::<K>(),
    ensures
        r@.no_duplicates(),
        forall|key: K| r@.contains(key) <==> #[trigger] table@.contains_key(key),
{
    broadcast use vstd::std_specs::hash::group_hash_axioms;
    let mut out: Vec<K> = Vec::new();
    for key in it: table.keys()
        invariant
            it.seq().no_duplicates(),
            it.seq().unref().to_set() == table@.dom(),
            out@ == it.seq().unref().take(it.index()),
            it.index() == it.seq().len() ==> out@.to_set() == table@.dom(),
    {
        out.push(*key);
        assert(out@ =~= it.seq().unref().take(it.index() + 1));
        assert(it.seq().unref().take(it.seq().len() as int) =~= it.seq().unref());
    }
    assert forall|key: K| out@.contains(key) <==> #[trigger] table@.contains_key(key) by {
        assert(out@.to_set().contains(key) <==> out@.contains(key));
    }
    out
}

/// A table with at most one value per address.
#[verifier::reject_recursive_types(V)]
pub struct IpTable<V: View> {
    v4: HashMap<u32, V>,
    v6: HashMap<u128, V>,
}

impl<V: View> View for IpTable<V> {
    type V = Map<IpAddr, V::V>;

    closed spec fn view(&self) -> Map<IpAddr, V::V> {
        Map::new(
            |ip: IpAddr|
                match ip {
                    IpAddr::V4(a) => self.v4@.contains_key(a),
                    IpAddr::V6(a) => self.v6@.contains_key(a),
                },
            |ip: IpAddr|
                match ip {
                    IpAddr::V4(a) => self.v4@[a]@,
                    IpAddr::V6(a) => self.v6@[a]@,
                },
        )
    }
}

impl<V: View> IpTable<V> {
    pub fn new() -> (r: Self)
        ensures
            r@ == Map::<IpAddr, V::V>::empty(),
    {
        broadcast use vstd::std_specs::hash::group_hash_axioms;
        let r = IpTable { v4: HashMap::new(), v6: HashMap::new() };
        assert(r@ =~= Map::<IpAddr, V::V>::empty());
        r
    }

    pub fn get(&self, ip: IpAddr) -> (r: Option<&V>)
        ensures
            match r {
                Some(v) => self@.contains_key(ip) && self@[ip] == v@,
                None => !self@.contains_key(ip),
            },
    {
        broadcast use vstd::std_specs::hash::group_hash_axioms;
        match ip {
            IpAddr::V4(a) => self.v4.get(&a),
            IpAddr::V6(a) => self.v6.get(&a),
        }
    }

    /// The addresses that have a value, each once, in no particular order.
    pub fn addresses(&self) -> (r: Vec<IpAddr>)
        ensures
            r@.no_duplicates(),
            forall|ip: IpAddr| r@.contains(ip) <==> #[trigger] self@.contains_key(ip),
    {
        broadcast use vstd::std_specs::hash::group_hash_axioms;
        let v4 = keys_of(&self.v4);
        let v6 = keys_of(&self.v6);
        let mut out: Vec<IpAddr> = Vec::new();
        for i in 0..v4.len()
            invariant
                out@ == v4@.take(i as int).map_values(|a: u32| IpAddr::V4(a)),
        {
            out.push(IpAddr::V4(v4[i]));
            assert(out@ =~= v4@.take(i + 1).map_values(|a: u32| IpAddr::V4(a)));
        }
        let ghost first = out@;
        for i in 0..v6.len()
            invariant
                out@ == first + v6@.take(i as int).map_values(|a: u128| IpAddr::V6(a)),
        {
            out.push(IpAddr::V6(v6[i]));
            assert(out@ =~= first + v6@.take(i + 1).map_values(|a: u128| IpAddr::V6(a)));
        }
        assert forall|ip: IpAddr| out@.contains(ip) <==> #[trigger] self@.contains_key(ip) by {
            match ip {
                IpAddr::V4(a) => {
                    if v4@.contains(a) {
                        assert(out@[v4@.index_of(a)] == ip);
                    }
                },
                IpAddr::V6(a) => {
                    if v6@.contains(a) {
                        assert(out@[first.len() + v6@.index_of(a)] == ip);
                    }
                },
            }
        }
        out
    }

    pub fn insert(&mut self, ip: IpAddr, value: V)
        ensures
            final(self)@ == old(self)@.insert(ip, value@),
    {
        broadcast use vstd::std_specs::hash::group_hash_axioms;
        match ip {
            IpAddr::V4(a) => {
                self.v4.insert(a, value);
            },
            IpAddr::V6(a) => {
                self.v6.insert(a, value);
            },
        }
        assert(self@ =~= old(self)@.insert(ip, value@));
    }

    pub fn remove(&mut self, ip: IpAddr) -> (r: Option<V>)
        ensures
            final(self)@ == old(self)@.remove(ip),
            match r {
                Some(v) => old(self)@.contains_key(ip) && old(self)@[ip] == v@,
                None => !old(self)@.contains_key(ip),
            },
    {
        broadcast use vstd::std_specs::hash::group_hash_axioms;
        let r = match ip {
            IpAddr::V4(a) => self.v4.remove(&a),
            IpAddr::V6(a) => self.v6.remove(&a),
        };
        assert(self@ =~= old(self)@.remove(ip));
        r
    }
}

/// The neighbours of an IPv4 address are the 256 that agree with it in their
/// first three octets, those of an IPv6 address the ones that agree in their
/// first 64 bits; an IPv4 address is no neighbour of an IPv6 address.
pub proof fn law_neighbours_share_their_prefix(a: IpAddr, b: IpAddr)
    ensures
        subnet_of(a) == subnet_of(b) <==> match (a, b) {
            (IpAddr::V4(x), IpAddr::V4(y)) => x / 256 == y / 256,
            (IpAddr::V6(x), IpAddr::V6(y)) => x / 0x1_0000_0000_0000_0000 == y
                / 0x1_0000_0000_0000_0000,
            _ => false,
        },
        a is V4 ==> subnet_of(a).prefix_len == 24,
        a is V6 ==> subnet_of(a).prefix_len == 64,
        subnet_of(subnet_of(a).addr) == subnet_of(a),
{
    match (a, b) {
        (IpAddr::V4(x), IpAddr::V4(y)) => {
            assert(x - x % 256 == 256 * (x / 256));
            assert(y - y % 256 == 256 * (y / 256));
        },
        (IpAddr::V6(x), IpAddr::V6(y)) => {
            let k = 0x1_0000_0000_0000_0000int;
            vstd::arithmetic::div_mod::lemma_fundamental_div_mod(x as int, k);
            vstd::arithmetic::div_mod::lemma_fundamental_div_mod(y as int, k);
        },
        _ => {},
    }
    if let IpAddr::V6(x) = a {
        let k = 0x1_0000_0000_0000_0000int;
        vstd::arithmetic::div_mod::lemma_fundamental_div_mod(x as int, k);
        vstd::arithmetic::div_mod::lemma_mod_multiples_basic(x as int / k, k);
        assert((x - x % 0x1_0000_0000_0000_0000) == (x as int / k) * k) by (nonlinear_arith)
            requires
                x as int == k * (x as int / k) + (x as int % k),
                k == 0x1_0000_0000_0000_0000int,
        ;
    }
}

/// An IPv4 address is made of its octets, the first the most significant.
pub proof fn law_octets_stand_in_order(a: u8, b: u8, c: u8, d: u8, r: IpAddr)
    requires
        call_ensures(IpAddr::v4, (a, b, c, d), r),
    ensures
        r is V4,
        r->V4_0 / 0x100_0000 == a,
        r->V4_0 / 0x1_0000 % 0x100 == b,
        r->V4_0 / 0x100 % 0x100 == c,
        r->V4_0 % 0x100 == d,
{
}

/// A table gives back what was put in under an address, nothing under one that
/// was taken out, and leaves the others alone.
pub proof fn law_table_gives_back_what_was_put_in<V: View>(
    fresh: IpTable<V>,
    filled: &mut IpTable<V>,
    ip: IpAddr,
    value: V,
    with: &IpTable<V>,
    got: Option<&V>,
    emptied: &mut IpTable<V>,
    taken: Option<V>,
    without: &IpTable<V>,
    gone: Option<&V>,
    other: IpAddr,
)
    requires
        call_ensures(IpTable::<V>::new, (), fresh),
        call_ensures(IpTable::<V>::insert, (filled, ip, value), ()),
        with@ == final(filled)@,
        call_ensures(IpTable::<V>::get, (with, ip), got),
        call_ensures(IpTable::<V>::remove, (emptied, ip), taken),
        without@ == final(emptied)@,
        call_ensures(IpTable::<V>::get, (without, ip), gone),
        other != ip,
    ensures
        !fresh@.contains_key(ip),
        got is Some && got->0@ == value@,
        gone is None,
        taken is Some <==> old(emptied)@.contains_key(ip),
        taken is Some ==> taken->0@ == old(emptied)@[ip],
        final(filled)@.contains_key(other) == old(filled)@.contains_key(other),
        old(filled)@.contains_key(other) ==> final(filled)@[other] == old(filled)@[other],
        final(emptied)@.contains_key(other) == old(emptied)@.contains_key(other),
        old(emptied)@.contains_key(other) ==> final(emptied)@[other] == old(emptied)@[other],
{
}

} // verus!
