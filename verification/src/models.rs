//! Plain data shared between the discovery task and the control loop.

use vstd::prelude::*;

verus! {

/// An IP address: the four octets of an IPv4 address in network order, or
/// the 128 bits of an IPv6 address, most significant first.
#[derive(Clone, Copy, Debug, PartialEq, Eq, Structural)]
pub enum IpAddress {
    V4(u8, u8, u8, u8),
    V6(u128),
}

/// An address and port that discovery found.
#[derive(Clone, Copy, Debug, PartialEq, Eq, Structural)]
pub struct DiscoveredAddress {
    pub ip: IpAddress,
    pub port: u16,
}

/// What the operator's panel shows.
#[derive(Clone, Copy, Debug, PartialEq, Eq, Structural)]
pub enum Mode {
    Sending,
    Receiving,
    Stopped,
    Settings,
}

/// The registry of discovered devices, with the service name that discovery
/// asks for. Addresses are kept in the order in which they were found; one
/// found twice is kept twice, and none is ever removed.
#[derive(Debug)]
pub struct SharedState {
    discovered_ips: Vec<DiscoveredAddress>,
    service: String,
}

impl SharedState {
    /// The addresses found so far, oldest first.
    pub closed spec fn addresses(self) -> Seq<DiscoveredAddress> {
        self.discovered_ips@
    }

    /// The service name that discovery asks for.
    pub closed spec fn service_name(self) -> Seq<char> {
        self.service@
    }

    /// An empty registry for `service`.
    pub fn new(service: String) -> (state: SharedState)
        ensures
            state.addresses() == Seq::<DiscoveredAddress>::empty(),
            state.service_name() == service@,
    {
        SharedState { discovered_ips: Vec::new(), service }
    }

    /// Replaces the service name. The addresses stay.
    pub fn set_service(&mut self, service: String)
        ensures
            final(self).service_name() == service@,
            final(self).addresses() == old(self).addresses(),
    {
        self.service = service;
    }

    /// The service name that discovery asks for.
    pub fn service(&self) -> (service: &str)
        ensures
            service@ == self.service_name(),
    {
        self.service.as_str()
    }

    /// Adds an address at the end.
    pub fn record(&mut self, address: DiscoveredAddress)
        ensures
            final(self).addresses() == old(self).addresses().push(address),
            final(self).service_name() == old(self).service_name(),
    {
        self.discovered_ips.push(address);
    }

    /// The addresses found so far, oldest first.
    pub fn discovered(&self) -> (addresses: &[DiscoveredAddress])
        ensures
            addresses@ == self.addresses(),
    {
        self.discovered_ips.as_slice()
    }

    /// The address found first, if any was found.
    pub fn first(&self) -> (address: Option<DiscoveredAddress>)
        ensures
            address == if self.addresses().len() > 0 {
                Some(self.addresses()[0])
            } else {
                None
            },
    {
        if self.discovered_ips.len() > 0 {
            Some(self.discovered_ips[0])
        } else {
            None
        }
    }
}

} // verus!
