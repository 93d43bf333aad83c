pub mod chat_sync;
pub mod discovery;
pub mod peer_sync;
pub mod protocol;
pub mod sync;
pub mod websocket;

use vstd::prelude::*;

verus! {

/// Connection settings of the peer-to-peer layer.
#[derive(Debug, Clone)]
pub struct Networking {
    pub server_url: String,
}

impl Networking {
    /// Networking towards the server at `server_url`.
    pub fn new(server_url: &str) -> (r: Self)
        ensures
            r.server_url@ == server_url@,
    {
        Self { server_url: server_url.to_owned() }
    }
}

} // verus!
