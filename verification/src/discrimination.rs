use vstd::prelude::*;

use crate::error::{AuthenticationError, Error, ErrorResponse, Source};

verus! {

/// An IP address, as the number its bits spell.
#[derive(Clone, Copy, Debug, PartialEq, Eq, Structural)]
pub enum IpAddress {
    V4(u32),
    V6(u128),
}

/// An IP network: an address and the length of its prefix.
#[derive(Clone, Copy, Debug, PartialEq, Eq, Structural)]
pub enum Network {
    V4 { addr: u32, prefix_len: u8 },
    V6 { addr: u128, prefix_len: u8 },
}

/// The mask of the first `prefix_len` bits of a 32-bit address (all of
/// them for a longer prefix).
pub open spec fn netmask_v4(prefix_len: u8) -> u32 {
    if prefix_len == 0 {
        0
    } else if prefix_len >= 32 {
        u32::MAX
    } else {
        u32::MAX << ((32 - prefix_len) as u32)
    }
}

/// The mask of the last `32 - prefix_len` bits of a 32-bit address.
pub open spec fn hostmask_v4(prefix_len: u8) -> u32 {
    if prefix_len >= 32 { 0 } else { u32::MAX >> (prefix_len as u32) }
}

/// The mask of the first `prefix_len` bits of a 128-bit address (all of
/// them for a longer prefix).
pub open spec fn netmask_v6(prefix_len: u8) -> u128 {
    if prefix_len == 0 {
        0
    } else if prefix_len >= 128 {
        u128::MAX
    } else {
        u128::MAX << ((128 - prefix_len) as u32)
    }
}

/// The mask of the last `128 - prefix_len` bits of a 128-bit address.
pub open spec fn hostmask_v6(prefix_len: u8) -> u128 {
    if prefix_len >= 128 { 0 } else { u128::MAX >> (prefix_len as u32) }
}

impl Network {
    /// An address belongs to a network of its own family when it lies
    /// between the network's first address and its last.
    pub open spec fn holds(self, ip: IpAddress) -> bool {
        match (self, ip) {
            (Network::V4 { addr, prefix_len }, IpAddress::V4(a)) => (addr & netmask_v4(prefix_len))
                <= a <= (addr | hostmask_v4(prefix_len)),
            (Network::V6 { addr, prefix_len }, IpAddress::V6(a)) => (addr & netmask_v6(prefix_len))
                <= a <= (addr | hostmask_v6(prefix_len)),
            _ => false,
        }
    }

    /// Whether an address belongs to the network.
    pub fn contains(&self, ip: &IpAddress) -> (res: bool)
        ensures
            res == self.holds(*ip),
            match (*self, *ip) {
                (Network::V4 { addr, prefix_len }, IpAddress::V4(a)) => prefix_len <= 32 ==> (res
                    <==> (prefix_len == 0 || a >> ((32 - prefix_len) as u32) == addr >> ((32
                    - prefix_len) as u32))),
                (Network::V6 { addr, prefix_len }, IpAddress::V6(a)) => prefix_len <= 128 ==> (res
                    <==> (prefix_len == 0 || a >> ((128 - prefix_len) as u32) == addr >> ((128
                    - prefix_len) as u32))),
                _ => !res,
            },
    {
        proof {
            match (*self, *ip) {
                (Network::V4 { addr, prefix_len }, IpAddress::V4(a)) => if prefix_len <= 32 {
                    v4_networks_hold_their_prefix(addr, prefix_len, a, 0);
                },
                (Network::V6 { addr, prefix_len }, IpAddress::V6(a)) => if prefix_len <= 128 {
                    v6_networks_hold_their_prefix(addr, prefix_len, a, 0);
                },
                _ => {},
            }
        }
        match (self, ip) {
            (Network::V4 { addr, prefix_len }, IpAddress::V4(a)) => {
                let netmask: u32 = if *prefix_len == 0 {
                    0
                } else if *prefix_len >= 32 {
                    u32::MAX
                } else {
                    u32::MAX << ((32 - *prefix_len) as u32)
                };
                let hostmask: u32 = if *prefix_len >= 32 {
                    0
                } else {
                    u32::MAX >> (*prefix_len as u32)
                };
                (*addr & netmask) <= *a && *a <= (*addr | hostmask)
            },
            (Network::V6 { addr, prefix_len }, IpAddress::V6(a)) => {
                let netmask: u128 = if *prefix_len == 0 {
                    0
                } else if *prefix_len >= 128 {
                    u128::MAX
                } else {
                    u128::MAX << ((128 - *prefix_len) as u32)
                };
                let hostmask: u128 = if *prefix_len >= 128 {
                    0
                } else {
                    u128::MAX >> (*prefix_len as u32)
                };
                (*addr & netmask) <= *a && *a <= (*addr | hostmask)
            },
            _ => false,
        }
    }
}

/// An IPv4 address belongs to a network with a prefix of `prefix_len`
/// bits (at most 32) exactly when its first `prefix_len` bits are those of
/// the network's address; with an empty prefix every IPv4 address belongs,
/// and no IPv6 address ever does.
pub proof fn v4_networks_hold_their_prefix(addr: u32, prefix_len: u8, a: u32, b: u128)
    requires
        prefix_len <= 32,
    ensures
        (Network::V4 { addr, prefix_len }).holds(IpAddress::V4(a)) <==> (prefix_len == 0 || a >> ((
        32 - prefix_len) as u32) == addr >> ((32 - prefix_len) as u32)),
        !(Network::V4 { addr, prefix_len }).holds(IpAddress::V6(b)),
{
    let p: u32 = prefix_len as u32;
    let s: u32 = (32 - prefix_len) as u32;
    if 0 < p && p < 32 {
        assert(((addr & (u32::MAX << s)) <= a && a <= (addr | (u32::MAX >> p))) <==> (a >> s == addr
            >> s)) by (bit_vector)
            requires
                0 < p < 32,
                p + s == 32,
        ;
        assert(netmask_v4(prefix_len) == u32::MAX << s);
        assert(hostmask_v4(prefix_len) == u32::MAX >> p);
    } else if p == 32 {
        assert(netmask_v4(prefix_len) == u32::MAX);
        assert(hostmask_v4(prefix_len) == 0);
        assert(s == 0);
        assert(((addr & u32::MAX) <= a && a <= (addr | 0)) <==> (a >> 0u32 == addr >> 0u32)) by (
        bit_vector);
    } else {
        assert(netmask_v4(prefix_len) == 0);
        assert(u32::MAX >> 0u32 == u32::MAX) by (bit_vector);
        assert(hostmask_v4(prefix_len) == u32::MAX);
        assert((addr & 0) <= a && a <= (addr | u32::MAX)) by (bit_vector);
    }
}

/// An IPv6 address belongs to a network with a prefix of `prefix_len`
/// bits (at most 128) exactly when its first `prefix_len` bits are those
/// of the network's address; with an empty prefix every IPv6 address
/// belongs, and no IPv4 address ever does.
#[verifier::rlimit(100)]
#[verifier::spinoff_prover]
pub proof fn v6_networks_hold_their_prefix(addr: u128, prefix_len: u8, a: u128, b: u32)
    requires
        prefix_len <= 128,
    ensures
        (Network::V6 { addr, prefix_len }).holds(IpAddress::V6(a)) <==> (prefix_len == 0 || a >> ((
        128 - prefix_len) as u32) == addr >> ((128 - prefix_len) as u32)),
        !(Network::V6 { addr, prefix_len }).holds(IpAddress::V4(b)),
{
    let p: u32 = prefix_len as u32;
    let s: u32 = (128 - prefix_len) as u32;
    if 0 < p && p < 128 {
        assert(((addr & (u128::MAX << s)) <= a && a <= (addr | (u128::MAX >> p))) <==> (a >> s
            == addr >> s)) by (bit_vector)
            requires
                0 < p < 128,
                p + s == 128,
        ;
        assert(netmask_v6(prefix_len) == u128::MAX << s);
        assert(hostmask_v6(prefix_len) == u128::MAX >> p);
    } else if p == 128 {
        assert(netmask_v6(prefix_len) == u128::MAX);
        assert(hostmask_v6(prefix_len) == 0);
        assert(s == 0);
        assert(((addr & u128::MAX) <= a && a <= (addr | 0)) <==> (a >> 0u32 == addr >> 0u32)) by (
        bit_vector);
    } else {
        assert(netmask_v6(prefix_len) == 0);
        assert(u128::MAX >> 0u32 == u128::MAX) by (bit_vector);
        assert(hostmask_v6(prefix_len) == u128::MAX);
        assert((addr & 0) <= a && a <= (addr | u128::MAX)) by (bit_vector);
    }
}

/// The mark of a request made from one of the authorized networks.
pub struct Discriminate;

impl Discriminate {
    /// Lets a request through by the address it was forwarded for (`None` where
    /// the request names no readable address): it must lie in one of the
    /// authorized networks.
    pub fn check_origin(origin: Option<IpAddress>, allowed: &Vec<Network>) -> (res: Result<
        Discriminate,
        ErrorResponse,
    >)
        ensures
            match origin {
                None => res matches Err(r) && r.wf() && r.chain().len() == 1
                    && r.root().error_type == Source::Authentication(
                    AuthenticationError::NotInNetwork,
                ) && r.root().message@ == "Failed to determine the origin of the call"@,
                Some(ip) => if exists|i: int| 0 <= i < allowed@.len() && (#[trigger] allowed@[i]).holds(ip) {
                    res is Ok
                } else {
                    res matches Err(r) && r.wf() && r.chain().len() == 1
                        && r.root().error_type == Source::Authentication(
                        AuthenticationError::NotInNetwork,
                    ) && r.root().message@ == "Request made from outside the authorized networks"@
                },
            },
    {
        match origin {
            None => Err(ErrorResponse::new(Error::authentication(
                AuthenticationError::NotInNetwork,
                String::from_str("Failed to determine the origin of the call"),
            ))),
            Some(ip) => {
                let mut i: usize = 0;
                while i < allowed.len()
                    invariant
                        i <= allowed@.len(),
                        origin == Some(ip),
                        forall|j: int| 0 <= j < i ==> !(#[trigger] allowed@[j]).holds(ip),
                    decreases allowed@.len() - i,
                {
                    if allowed[i].contains(&ip) {
                        return Ok(Discriminate);
                    }
                    i = i + 1;
                }
                Err(ErrorResponse::new(Error::authentication(
                    AuthenticationError::NotInNetwork,
                    String::from_str("Request made from outside the authorized networks"),
                )))
            },
        }
    }
}

} // verus!
