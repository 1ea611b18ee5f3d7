//! Network-side rules: which text is a destination, and how the records of
//! multicast DNS responses pair up into discovered addresses.
//!
//! A service record (SRV) names a port and a target host. The address record
//! (A or AAAA) that follows it under the target's name completes the pair,
//! which is then entered in the registry.

use vstd::prelude::*;
use crate::address::{valid_address, Endpoint};
use crate::models::{DiscoveredAddress, IpAddress, SharedState};

verus! {

/// Service type that discovery asks for.
pub const SERVICE_TYPE: &'static str = "_controller._udp.local";

/// Local UDP port on which echoes are received.
pub const LOCAL_PORT: u16 = 8080;

/// Seconds for which discovery listens for responses.
pub const DISCOVERY_WINDOW_SECS: u64 = 15;

/// What a DNS record carries, as far as discovery reads it.
#[derive(Debug, PartialEq, Eq)]
pub enum RecordKind {
    /// A service record: the port of the service and the host that offers it.
    Srv { port: u16, target: String },
    /// An IPv4 address record.
    A(u8, u8, u8, u8),
    /// An IPv6 address record.
    Aaaa(u128),
    /// Any other record.
    Other,
}

/// A DNS record: the name it is about, and what it carries.
#[derive(Debug, PartialEq, Eq)]
pub struct Record {
    pub name: String,
    pub kind: RecordKind,
}

/// A service that waits for its address: the port and the target host of the
/// service record seen last.
pub struct Pending {
    pub port: u16,
    pub target: Seq<char>,
}

/// The port of a service record.
pub open spec fn port_of(record: Record) -> Option<u16> {
    match record.kind {
        RecordKind::Srv { port, .. } => Some(port),
        _ => None,
    }
}

/// The address of an address record.
pub open spec fn ip_of(record: Record) -> Option<IpAddress> {
    match record.kind {
        RecordKind::A(a, b, c, d) => Some(IpAddress::V4(a, b, c, d)),
        RecordKind::Aaaa(bits) => Some(IpAddress::V6(bits)),
        _ => None,
    }
}

/// The address that `record` completes: it is an address record under the
/// name of the waiting service's target.
pub open spec fn resolved(pending: Option<Pending>, record: Record) -> Option<DiscoveredAddress> {
    match (pending, ip_of(record)) {
        (Some(service), Some(ip)) => if record.name@ == service.target {
            Some(DiscoveredAddress { ip, port: service.port })
        } else {
            None
        },
        _ => None,
    }
}

/// The service that waits after `record`: a service record takes the place
/// of whatever waited, a completing address record leaves nothing waiting,
/// and any other record changes nothing.
pub open spec fn pending_after(pending: Option<Pending>, record: Record) -> Option<Pending> {
    match record.kind {
        RecordKind::Srv { port, target } => Some(Pending { port, target: target@ }),
        _ => if resolved(pending, record) is Some {
            None
        } else {
            pending
        },
    }
}

/// The service that waits after a run of records, first to last.
pub open spec fn pending_after_all(pending: Option<Pending>, records: Seq<Record>) -> Option<
    Pending,
>
    decreases records.len(),
{
    if records.len() == 0 {
        pending
    } else {
        pending_after(pending_after_all(pending, records.drop_last()), records.last())
    }
}

/// The addresses that a run of records completes, in order.
pub open spec fn resolved_all(pending: Option<Pending>, records: Seq<Record>) -> Seq<
    DiscoveredAddress,
>
    decreases records.len(),
{
    if records.len() == 0 {
        Seq::empty()
    } else {
        let before = resolved_all(pending, records.drop_last());
        match resolved(pending_after_all(pending, records.drop_last()), records.last()) {
            Some(address) => before.push(address),
            None => before,
        }
    }
}

/// Namespace of the network-side rules.
#[derive(Clone, Copy, Debug, PartialEq, Eq, Structural)]
pub struct Network {}

impl Network {
    /// The rules hold no state.
    pub fn new() -> (network: Network)
        ensures
            network == (Network {  }),
    {
        Network {  }
    }

    /// Whether `ip_string` is a destination in the strict form
    /// `ddd.ddd.ddd.ddd:pppp`.
    pub fn check_ip_string(ip_string: &str) -> (valid: bool)
        ensures
            valid == valid_address(ip_string@),
    {
        Endpoint::parse(ip_string).is_some()
    }

    /// The port of a service record; `None` for any other record.
    pub fn extract_port(record: &Record) -> (port: Option<u16>)
        ensures
            port == port_of(*record),
    {
        match &record.kind {
            RecordKind::Srv { port, .. } => Some(*port),
            _ => None,
        }
    }

    /// The address of an address record; `None` for any other record.
    pub fn to_ip_addr(record: &Record) -> (ip: Option<IpAddress>)
        ensures
            ip == ip_of(*record),
    {
        match &record.kind {
            RecordKind::A(a, b, c, d) => Some(IpAddress::V4(*a, *b, *c, *d)),
            RecordKind::Aaaa(bits) => Some(IpAddress::V6(*bits)),
            _ => None,
        }
    }
}

/// Pairs service records with the address records that follow them.
#[derive(Debug)]
pub struct Resolver {
    recent_port: Option<u16>,
    recent_target: Option<String>,
}

impl View for Resolver {
    type V = Option<Pending>;

    closed spec fn view(&self) -> Option<Pending> {
        match (self.recent_port, self.recent_target) {
            (Some(port), Some(target)) => Some(Pending { port, target: target@ }),
            _ => None,
        }
    }
}

impl Resolver {
    /// A resolver with no service waiting.
    pub fn new() -> (resolver: Resolver)
        ensures
            resolver@ is None,
    {
        Resolver { recent_port: None, recent_target: None }
    }

    /// Reads one record, and returns the address that it completes, if it
    /// completes one.
    pub fn observe(&mut self, record: &Record) -> (address: Option<DiscoveredAddress>)
        ensures
            address == resolved(old(self)@, *record),
            final(self)@ == pending_after(old(self)@, *record),
    {
        match &record.kind {
            RecordKind::Srv { port, target } => {
                self.recent_port = Some(*port);
                self.recent_target = Some(target.clone());
                None
            },
            _ => {
                let ip = match Network::to_ip_addr(record) {
                    Some(ip) => ip,
                    None => return None,
                };
                let port = match self.recent_port {
                    Some(port) => port,
                    None => return None,
                };
                let named = match &self.recent_target {
                    Some(target) => record.name == *target,
                    None => false,
                };
                if !named {
                    return None;
                }
                self.recent_port = None;
                self.recent_target = None;
                Some(DiscoveredAddress { ip, port })
            },
        }
    }

    /// Reads the records of one response in order, and enters each address
    /// that they complete in the registry. The registry only grows.
    pub fn absorb(&mut self, records: &[Record], registry: &mut SharedState)
        ensures
            final(self)@ == pending_after_all(old(self)@, records@),
            final(registry).addresses() == old(registry).addresses() + resolved_all(
                old(self)@,
                records@,
            ),
            old(registry).addresses().is_prefix_of(final(registry).addresses()),
            final(registry).service_name() == old(registry).service_name(),
    {
        let mut at: usize = 0;
        while at < records.len()
            invariant
                at <= records.len(),
                self@ == pending_after_all(old(self)@, records@.take(at as int)),
                registry.addresses() == old(registry).addresses() + resolved_all(
                    old(self)@,
                    records@.take(at as int),
                ),
                registry.service_name() == old(registry).service_name(),
            decreases records.len() - at,
        {
            proof {
                assert(records@.take(at + 1).drop_last() =~= records@.take(at as int));
            }
            match self.observe(&records[at]) {
                Some(address) => registry.record(address),
                None => {},
            }
            at += 1;
        }
        proof {
            assert(records@.take(at as int) =~= records@);
        }
    }
}

/// An address is resolved only for a waiting service, under the name of its
/// target, with its port; and the service then waits no longer.
pub proof fn lemma_resolved_pairs(pending: Option<Pending>, record: Record)
    requires
        resolved(pending, record) is Some,
    ensures
        pending is Some,
        record.name@ == pending->0.target,
        resolved(pending, record)->0.port == pending->0.port,
        ip_of(record) == Some(resolved(pending, record)->0.ip),
        pending_after(pending, record) is None,
{
}

/// A run of records resolves at most one address for each record.
pub proof fn lemma_resolved_all_len(pending: Option<Pending>, records: Seq<Record>)
    ensures
        resolved_all(pending, records).len() <= records.len(),
    decreases records.len(),
{
    if records.len() > 0 {
        lemma_resolved_all_len(pending, records.drop_last());
    }
}

/// With no service waiting and no service record in the run, nothing is
/// resolved.
pub proof fn lemma_no_service_no_address(records: Seq<Record>)
    requires
        forall|i: int| 0 <= i < records.len() ==> port_of(#[trigger] records[i]) is None,
    ensures
        pending_after_all(None, records) is None,
        resolved_all(None, records) == Seq::<DiscoveredAddress>::empty(),
    decreases records.len(),
{
    if records.len() > 0 {
        let front = records.drop_last();
        assert forall|i: int| 0 <= i < front.len() implies port_of(#[trigger] front[i])
            is None by {
            assert(front[i] == records[i]);
        }
        lemma_no_service_no_address(front);
        assert(port_of(records[records.len() - 1]) is None);
    }
}

/// Reading two runs of records one after the other is reading them as one
/// run: the waiting service carries over from the first to the second.
pub proof fn lemma_runs_compose(pending: Option<Pending>, first: Seq<Record>, second: Seq<Record>)
    ensures
        pending_after_all(pending, first + second) == pending_after_all(
            pending_after_all(pending, first),
            second,
        ),
        resolved_all(pending, first + second) == resolved_all(pending, first) + resolved_all(
            pending_after_all(pending, first),
            second,
        ),
    decreases second.len(),
{
    if second.len() == 0 {
        assert(first + second =~= first);
        assert(resolved_all(pending, first) + Seq::<DiscoveredAddress>::empty() =~= resolved_all(
            pending,
            first,
        ));
    } else {
        let whole = first + second;
        assert(whole.drop_last() =~= first + second.drop_last());
        assert(whole.last() == second.last());
        lemma_runs_compose(pending, first, second.drop_last());
        let carried = pending_after_all(pending, first);
        let before = resolved_all(carried, second.drop_last());
        match resolved(pending_after_all(carried, second.drop_last()), second.last()) {
            Some(address) => {
                assert(resolved_all(pending, first) + before.push(address) =~= (resolved_all(
                    pending,
                    first,
                ) + before).push(address));
            },
            None => {},
        }
    }
}

} // verus!
