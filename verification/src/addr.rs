//! Network addresses of compute nodes.

use vstd::prelude::*;

verus! {

/// The address of a node: a host name or literal, and a port.
#[derive(Debug, PartialEq, Eq, Hash)]
pub struct HostAddr {
    pub host: String,
    pub port: u16,
}

/// An address as a mathematical value.
pub struct HostAddrView {
    pub host: Seq<char>,
    pub port: u16,
}

impl View for HostAddr {
    type V = HostAddrView;

    open spec fn view(&self) -> HostAddrView {
        HostAddrView { host: self.host@, port: self.port }
    }
}

impl Clone for HostAddr {
    fn clone(&self) -> (copy: Self)
        ensures
            copy == *self,
    {
        HostAddr { host: self.host.clone(), port: self.port }
    }
}

impl HostAddr {
    pub fn new(host: String, port: u16) -> (addr: Self)
        ensures
            addr.host == host,
            addr.port == port,
    {
        HostAddr { host, port }
    }

    /// Whether two addresses name the same host and port.
    pub fn same_as(&self, other: &HostAddr) -> (same: bool)
        ensures
            same == (self@ == other@),
    {
        self.port == other.port && self.host == other.host
    }
}

} // verus!
