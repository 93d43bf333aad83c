//! Receives edits, applies them to the document in arrival order and says
//! which connections get the resulting diff.

use vstd::prelude::*;
use crate::client::{Clients, recipients, views, recipients_of_key};
use crate::document::{Document, DocumentUpdate};
use crate::editor::diff_engine::{DiffEngine, diff_spec, edits_of};
use crate::networking::protocol::{ProtocolMessage, SyncMessage};
use crate::text::bytes_of;

verus! {

/// A synchronisation message and the connections it is for.
#[derive(Debug)]
pub struct SyncBroadcast {
    pub recipients: Vec<String>,
    pub message: ProtocolMessage,
}

/// The shared document together with the connections editing it.
pub struct Broadcaster {
    pub document: Document,
    pub clients: Clients,
}

impl Broadcaster {
    /// An empty document with nobody connected.
    pub fn new() -> (r: Self)
        ensures
            r.clients.wf(),
            r.clients@.len() == 0,
            r.document.content@.len() == 0,
            r.document.history@.len() == 0,
    {
        Broadcaster { document: Document::new(), clients: Clients::new() }
    }

    /// Handles an incoming edit from connection `from_id`. A message that
    /// could not be decoded (`None`) is dropped and changes nothing.
    /// Otherwise the update is applied to the document, and the diff from the
    /// old content to the new goes to every other connected client.
    pub fn handle_incoming(&mut self, from_id: &str, update: Option<DocumentUpdate>) -> (r: Option<SyncBroadcast>)
        requires
            old(self).clients.wf(),
        ensures
            final(self).clients == old(self).clients,
            update is None ==> r is None && final(self).document == old(self).document,
            update matches Some(u) ==> {
                &&& final(self).document.history@ == old(self).document.history@.push(u)
                &&& final(self).document.content@ == u.content@
                &&& r matches Some(b)
                &&& views(b.recipients@) == recipients(old(self).clients@, Some(from_id@))
                &&& b.message matches ProtocolMessage::Sync(m)
                &&& edits_of(m.operations@) == diff_spec(bytes_of(old(self).document.content@), bytes_of(u.content@))
            },
    {
        match update {
            None => None,
            Some(u) => {
                let old_content = self.document.content.clone();
                self.document.apply_update(u);
                let operations = DiffEngine::diff(old_content.as_str(), self.document.content.as_str());
                let recipients = recipients_of_key(&self.clients, from_id);
                Some(SyncBroadcast { recipients, message: ProtocolMessage::Sync(SyncMessage { operations }) })
            },
        }
    }
}

} // verus!
