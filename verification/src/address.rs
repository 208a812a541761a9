//! Address families and the records that a successful lookup produces.

use vstd::prelude::*;
use vstd::slice::slice_to_vec;

verus! {

/// The dispatcher's number for the IPv4 family.
pub const AF_INET: i32 = 2;

/// The dispatcher's number for the IPv6 family.
pub const AF_INET6: i32 = 10;

/// The address families a record can be made for.
#[derive(Clone, Copy, Debug, PartialEq, Eq, Structural)]
pub enum AddressFamily {
    Ipv4,
    Ipv6,
}

impl AddressFamily {
    /// The family with the dispatcher's number `raw`, if it is one that this
    /// resolver serves.
    pub open spec fn spec_from_raw(raw: int) -> Option<AddressFamily> {
        if raw == AF_INET {
            Some(AddressFamily::Ipv4)
        } else if raw == AF_INET6 {
            Some(AddressFamily::Ipv6)
        } else {
            None
        }
    }

    /// The dispatcher's number for this family.
    pub open spec fn spec_raw(self) -> int {
        match self {
            AddressFamily::Ipv4 => AF_INET as int,
            AddressFamily::Ipv6 => AF_INET6 as int,
        }
    }

    /// The number of bytes in an address of this family.
    pub open spec fn spec_addr_len(self) -> nat {
        match self {
            AddressFamily::Ipv4 => 4,
            AddressFamily::Ipv6 => 16,
        }
    }

    /// The loopback address of this family in network byte order:
    /// `127.0.0.1`, or `::1`.
    pub open spec fn loopback(self) -> Seq<u8> {
        match self {
            AddressFamily::Ipv4 => seq![127u8, 0u8, 0u8, 1u8],
            AddressFamily::Ipv6 => seq![
                0u8, 0u8, 0u8, 0u8, 0u8, 0u8, 0u8, 0u8,
                0u8, 0u8, 0u8, 0u8, 0u8, 0u8, 0u8, 1u8,
            ],
        }
    }

    /// Decodes the dispatcher's family number. Any number other than the two
    /// served families gives `None`.
    pub fn from_raw(raw: i32) -> (r: Option<AddressFamily>)
        ensures
            r == Self::spec_from_raw(raw as int),
    {
        if raw == AF_INET {
            Some(AddressFamily::Ipv4)
        } else if raw == AF_INET6 {
            Some(AddressFamily::Ipv6)
        } else {
            None
        }
    }

    /// The dispatcher's number for this family.
    pub fn raw(self) -> (r: i32)
        ensures
            r == self.spec_raw(),
    {
        match self {
            AddressFamily::Ipv4 => AF_INET,
            AddressFamily::Ipv6 => AF_INET6,
        }
    }

    /// The number of bytes in an address of this family.
    pub fn addr_len(self) -> (r: usize)
        ensures
            r == self.spec_addr_len(),
    {
        match self {
            AddressFamily::Ipv4 => 4,
            AddressFamily::Ipv6 => 16,
        }
    }

    /// The loopback address of this family in network byte order.
    pub fn loopback_address(self) -> (r: Vec<u8>)
        ensures
            r@ == self.loopback(),
            r@.len() == self.spec_addr_len(),
    {
        let mut r: Vec<u8> = Vec::new();
        match self {
            AddressFamily::Ipv4 => {
                r.push(127);
                r.push(0);
                r.push(0);
                r.push(1);
            },
            AddressFamily::Ipv6 => {
                let mut i: usize = 0;
                while i < 15
                    invariant
                        i <= 15,
                        r@.len() == i,
                        forall|k: int| 0 <= k < i ==> r@[k] == 0u8,
                    decreases 15 - i,
                {
                    r.push(0);
                    i += 1;
                }
                r.push(1);
            },
        }
        assert(r@ =~= self.loopback());
        r
    }
}

/// Decoding the number of a family gives that family back.
pub proof fn lemma_raw_round_trip(family: AddressFamily)
    ensures
        AddressFamily::spec_from_raw(family.spec_raw()) == Some(family),
{
}

/// The answer to a successful lookup: the queried name, no aliases, and one
/// address of the requested family.
#[derive(Debug)]
pub struct HostRecord {
    /// The canonical name: the name that was asked for.
    pub name: Vec<u8>,
    /// Other names of the host. A record made here has none.
    pub aliases: Vec<Vec<u8>>,
    /// The family of `address`.
    pub family: AddressFamily,
    /// The one address of the host, in network byte order.
    pub address: Vec<u8>,
}

impl HostRecord {
    /// The record has no aliases, and its address has the length of its
    /// family.
    pub open spec fn wf(&self) -> bool {
        &&& self.aliases@.len() == 0
        &&& self.address@.len() == self.family.spec_addr_len()
    }

    /// The record names `name` and holds the loopback address of `family`.
    pub open spec fn is_loopback_of(&self, name: Seq<u8>, family: AddressFamily) -> bool {
        &&& self.wf()
        &&& self.name@ == name
        &&& self.family == family
        &&& self.address@ == family.loopback()
    }
}

/// Makes the record for a matched name: the name itself, no aliases, and the
/// loopback address of `family`.
pub fn synthesize(name: &[u8], family: AddressFamily) -> (r: HostRecord)
    ensures
        r.is_loopback_of(name@, family),
{
    HostRecord {
        name: slice_to_vec(name),
        aliases: Vec::new(),
        family,
        address: family.loopback_address(),
    }
}

} // verus!
