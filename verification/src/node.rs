//! A node address: a 4-bit port identifier and a 4-bit node identifier,
//! packed into one wire byte as `(port_id << 4) | node_id`.

use vstd::prelude::*;

verus! {

/// Address of a packet's source or target endpoint.
#[derive(Debug, Clone, Copy, PartialEq, Eq, Structural)]
pub struct Node {
    pub port_id: u8,
    pub node_id: u8,
}

impl Node {
    /// Both identifiers fit in four bits.
    pub open spec fn wf(self) -> bool {
        self.port_id < 16 && self.node_id < 16
    }

    /// The packed wire byte: the port in the upper nibble, the node in the
    /// lower nibble.
    pub open spec fn spec_pack(self) -> u8 {
        (self.port_id << 4) | self.node_id
    }

    /// The address encoded in a wire byte; never rejects, since every 4-bit
    /// combination is representable.
    pub open spec fn spec_unpack(b: u8) -> Node {
        Node { port_id: b >> 4, node_id: b & 0x0F }
    }

    /// Creates an address from a port and node identifier.
    pub fn new(port_id: u8, node_id: u8) -> (r: Node)
        requires
            port_id < 16,
            node_id < 16,
        ensures
            r == (Node { port_id, node_id }),
            r.wf(),
    {
        Node { port_id, node_id }
    }

    /// Packs the address into its wire byte.
    pub fn pack(&self) -> (r: u8)
        requires
            self.wf(),
        ensures
            r == self.spec_pack(),
    {
        (self.port_id << 4) | self.node_id
    }

    /// Unpacks a wire byte into an address.
    pub fn unpack(b: u8) -> (r: Node)
        ensures
            r == Node::spec_unpack(b),
            r.wf(),
    {
        proof {
            assert(b >> 4 < 16 && b & 0x0F < 16) by (bit_vector);
        }
        Node { port_id: b >> 4, node_id: b & 0x0F }
    }
}

/// Packing then unpacking restores the address: the wire byte determines
/// both identifiers exactly.
pub proof fn lemma_node_pack_unpack(n: Node)
    requires
        n.wf(),
    ensures
        Node::spec_unpack(n.spec_pack()) == n,
{
    let p = n.port_id;
    let d = n.node_id;
    assert(p < 16 && d < 16 ==> ((p << 4) | d) >> 4 == p && ((p << 4) | d) & 0x0F == d)
        by (bit_vector);
}

} // verus!
