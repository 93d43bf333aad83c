use vstd::prelude::*;

verus! {

/// A peer announcing its address to the signalling server.
#[derive(Debug, Clone)]
pub struct RegisterMessage {
    pub peer_addr: String,
}

/// The addresses of the known peers.
#[derive(Debug, Clone)]
pub struct PeerListMessage {
    pub peers: Vec<String>,
}

} // verus!
