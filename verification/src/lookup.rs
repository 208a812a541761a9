//! The lookups that the dispatcher asks for.
//!
//! Every lookup is a function of its arguments: the configuration value is
//! handed in by the caller, who reads it anew for each call, and nothing is
//! kept between calls.

use vstd::prelude::*;
use crate::address::synthesize;
use crate::address::AddressFamily;
use crate::address::HostRecord;
use crate::address::AF_INET;
use crate::marshal::image;
use crate::marshal::layout_of;
use crate::marshal::required_size;
use crate::marshal::write_record;
use crate::marshal::RecordLayout;
use crate::matcher::config_view;
use crate::matcher::domain_list;
use crate::matcher::domains_of;
use crate::matcher::spec_matches;
use crate::status::Status;

verus! {

/// The status of a forward lookup of `name` for the family numbered
/// `family_raw`, under the configuration `config`, into a buffer of
/// `capacity` bytes.
pub open spec fn lookup_status(
    name: Seq<u8>,
    family_raw: int,
    config: Option<Seq<u8>>,
    capacity: nat,
) -> Status {
    if !spec_matches(name, domains_of(config)) {
        Status::NotFound
    } else {
        match AddressFamily::spec_from_raw(family_raw) {
            None => Status::Unavailable,
            Some(family) => if required_size(family.spec_addr_len(), name.len()) <= capacity {
                Status::Success
            } else {
                Status::TryAgain
            },
        }
    }
}

/// The address that a forward lookup answers with; `None` where the lookup
/// does not succeed.
pub open spec fn lookup_address(
    name: Seq<u8>,
    family_raw: int,
    config: Option<Seq<u8>>,
    capacity: nat,
) -> Option<Seq<u8>> {
    if lookup_status(name, family_raw, config, capacity) == Status::Success {
        Some(AddressFamily::spec_from_raw(family_raw).unwrap().loopback())
    } else {
        None
    }
}

/// The name service for the configured pseudo top-level domains.
#[derive(Debug)]
pub struct Resolver;

impl Resolver {
    /// Answers a forward lookup with a record: the loopback address of `af`
    /// under the queried name where the name matches the configuration, and
    /// nothing otherwise.
    pub fn gethostbyname2_r(name: &[u8], af: AddressFamily, config: Option<&str>) -> (r: Option<
        HostRecord,
    >)
        ensures
            r.is_some() <==> spec_matches(name@, domains_of(config_view(config))),
            r.is_some() ==> r.unwrap().is_loopback_of(name@, af),
    {
        let domains = domain_list(config);
        if crate::matcher::matches(name, &domains) {
            Some(synthesize(name, af))
        } else {
            None
        }
    }

    /// Answers a reverse lookup: never with a record.
    pub fn gethostbyaddr_r(addr: &[u8]) -> (r: Option<HostRecord>)
        ensures
            r.is_none(),
    {
        None
    }
}

/// Forward lookup of `name` for the family numbered `family_raw`.
///
/// A name that does not match the configuration is not found, whatever the
/// family. For a matching name, a family other than IPv4 and IPv6 is
/// unavailable; a buffer too small for the record asks the caller to try
/// again; otherwise the record is written at the start of `buf` and its
/// layout returned. Unless the lookup succeeds, `buf` is left as it was.
pub fn lookup_by_name(name: &[u8], family_raw: i32, config: Option<&str>, buf: &mut [u8]) -> (r: (
    Status,
    Option<RecordLayout>,
))
    ensures
        r.0 == lookup_status(
            name@,
            family_raw as int,
            config_view(config),
            old(buf)@.len(),
        ),
        final(buf)@.len() == old(buf)@.len(),
        r.0 != Status::Success ==> r.1.is_none() && final(buf)@ == old(buf)@,
        r.0 == Status::Success ==> {
            let family = AddressFamily::spec_from_raw(family_raw as int).unwrap();
            let address = lookup_address(
                name@,
                family_raw as int,
                config_view(config),
                old(buf)@.len(),
            ).unwrap();
            &&& r.1 == Some(layout_of(family, name@.len()))
            &&& final(buf)@ == image(address, name@) + old(buf)@.subrange(
                required_size(address.len(), name@.len()) as int,
                old(buf)@.len() as int,
            )
        },
{
    match AddressFamily::from_raw(family_raw) {
        None => {
            let domains = domain_list(config);
            if crate::matcher::matches(name, &domains) {
                (Status::Unavailable, None)
            } else {
                (Status::NotFound, None)
            }
        },
        Some(family) => {
            match Resolver::gethostbyname2_r(name, family, config) {
                None => (Status::NotFound, None),
                Some(record) => {
                    match write_record(&record, buf) {
                        None => (Status::TryAgain, None),
                        Some(layout) => (Status::Success, Some(layout)),
                    }
                },
            }
        },
    }
}

/// Forward lookup without a family: a lookup for IPv4.
pub fn lookup_by_name_default_family(name: &[u8], config: Option<&str>, buf: &mut [u8]) -> (r: (
    Status,
    Option<RecordLayout>,
))
    ensures
        r.0 == lookup_status(name@, AF_INET as int, config_view(config), old(buf)@.len()),
        final(buf)@.len() == old(buf)@.len(),
        r.0 != Status::Success ==> r.1.is_none() && final(buf)@ == old(buf)@,
        r.0 == Status::Success ==> {
            &&& r.1 == Some(layout_of(AddressFamily::Ipv4, name@.len()))
            &&& final(buf)@ == image(AddressFamily::Ipv4.loopback(), name@) + old(buf)@.subrange(
                required_size(4, name@.len()) as int,
                old(buf)@.len() as int,
            )
        },
{
    lookup_by_name(name, AF_INET, config, buf)
}

/// Reverse lookup: unavailable, whatever the address and its family.
pub fn lookup_by_address(addr: &[u8], family_raw: i32) -> (r: Status)
    ensures
        r == Status::Unavailable,
{
    Status::Unavailable
}

} // verus!
