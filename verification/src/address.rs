use vstd::prelude::*;

verus! {

/// The IP part of a node's network address.
#[derive(Debug, Clone, Copy, PartialEq, Eq, Structural)]
pub enum IpAddress {
    V4(u32),
    V6(u128),
}

/// A node's network address. A node is known to the others by it, and its
/// port doubles as the node's identifier in elections.
#[derive(Debug, Clone, Copy, PartialEq, Eq, Structural)]
pub struct NodeAddress {
    pub ip: IpAddress,
    pub port: u16,
}

impl NodeAddress {
    /// The loopback address `127.0.0.1` with the given port: where every node of the cluster listens.
    pub fn localhost(port: u16) -> (r: NodeAddress)
        ensures
            r.ip == IpAddress::V4(0x7f00_0001),
            r.port == port,
    {
        NodeAddress { ip: IpAddress::V4(0x7f00_0001), port }
    }

    /// The identifier that elections use for the node at this address: its port.
    pub fn node_id(&self) -> (r: i32)
        ensures
            r == self.port as int,
    {
        self.port as i32
    }
}

} // verus!
