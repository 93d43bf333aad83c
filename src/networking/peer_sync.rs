//! Content exchanged between peers, and how a conflict between two versions
//! is settled.

use vstd::prelude::*;
use crate::text::text_eq;

verus! {

/// Content sent by one peer.
#[derive(Debug, Clone)]
pub struct PeerMessage {
    pub sender_id: String,
    pub content: String,
    pub timestamp: String,
}

/// The version that stands when `new_content` arrives while the document
/// holds `existing_content`: the one that arrived last.
pub fn resolve_conflict(existing_content: &str, new_content: &str) -> (r: String)
    ensures
        r@ == new_content@,
{
    if text_eq(existing_content, new_content) {
        existing_content.to_owned()
    } else {
        new_content.to_owned()
    }
}

} // verus!
