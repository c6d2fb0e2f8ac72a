pub mod handler;
pub mod protocol;

use vstd::prelude::*;

verus! {

/// The node's server, which answers the requests of other nodes.
pub struct AkarekoServer {}

impl AkarekoServer {
    pub fn new() -> (r: AkarekoServer) {
        AkarekoServer {}
    }
}

} // verus!
