use vstd::prelude::*;

verus! {

/// Which end of the relayed connection a frame came from.
#[derive(Clone, Copy, Debug, PartialEq, Eq, Structural)]
pub enum PacketDirection {
    /// Sent by the client, travelling towards the server.
    ClientToServer,
    /// Sent by the server, travelling towards the client.
    ServerToClient,
}

} // verus!
