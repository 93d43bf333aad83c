use vstd::prelude::*;

verus! {

/// A message relayed to every connection as it arrives.
#[derive(Debug, Clone)]
pub struct RealTimeMessage {
    pub sender: String,
    pub content: String,
    pub timestamp: String,
}

} // verus!
