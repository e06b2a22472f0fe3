use vstd::prelude::*;

use crate::application::quorum::QuorumNode;

verus! {

/// Serves the local node over TCP at its address.
pub struct TCPServer {
    pub local_node: QuorumNode,
}

} // verus!
