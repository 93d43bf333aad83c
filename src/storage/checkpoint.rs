//! Named snapshots of the document that the user can go back to.

use vstd::prelude::*;
use crate::document::Document;
use crate::store::{NamedStore, lookup, put, without, key_seq, unique_keys, lemma_put_lookup};

verus! {

/// Key snapshots of the document by name; unlike the history, only what the
/// user chose to keep.
pub struct CheckpointManager {
    checkpoints: NamedStore<Document>,
}

impl View for CheckpointManager {
    type V = Seq<(Seq<char>, Document)>;

    closed spec fn view(&self) -> Seq<(Seq<char>, Document)> {
        self.checkpoints@
    }
}

impl CheckpointManager {
    /// No two checkpoints share a name.
    pub open spec fn wf(&self) -> bool {
        unique_keys(self@)
    }

    pub fn new() -> (r: Self)
        ensures
            r.wf(),
            r@ == Seq::<(Seq<char>, Document)>::empty(),
    {
        Self { checkpoints: NamedStore::new() }
    }

    /// Keeps `document` under `name`, replacing an older checkpoint of that name.
    pub fn save_checkpoint(&mut self, name: &str, document: Document) -> (r: Result<(), String>)
        requires
            old(self).wf(),
        ensures
            final(self).wf(),
            final(self)@ == put(old(self)@, name@, document),
            lookup(final(self)@, name@) == Some(document),
            forall|k: Seq<char>| k != name@ ==> #[trigger] lookup(final(self)@, k) == lookup(old(self)@, k),
            r is Ok,
    {
        let ghost s0 = self@;
        let ghost d = document;
        self.checkpoints.insert(name.to_owned(), document);
        proof {
            lemma_put_lookup(s0, name@, d);
        }
        Ok(())
    }

    /// The checkpoint `name`.
    pub fn load_checkpoint(&self, name: &str) -> (r: Option<&Document>)
        requires
            self.wf(),
        ensures
            r matches Some(d) ==> lookup(self@, name@) == Some(*d),
            r is None ==> lookup(self@, name@) is None,
    {
        self.checkpoints.get(name)
    }

    /// Forgets the checkpoint `name`, if there is one.
    pub fn delete_checkpoint(&mut self, name: &str) -> (r: Result<(), String>)
        requires
            old(self).wf(),
        ensures
            final(self).wf(),
            final(self)@ == without(old(self)@, name@),
            r is Ok,
    {
        self.checkpoints.remove(name);
        Ok(())
    }

    /// The names of all checkpoints, oldest first.
    pub fn list_checkpoints(&self) -> (r: Vec<String>)
        ensures
            r@.map_values(|s: String| s@) == key_seq(self@),
    {
        self.checkpoints.keys()
    }

    /// Forgets every checkpoint.
    pub fn clear_checkpoints(&mut self)
        ensures
            final(self).wf(),
            final(self)@ == Seq::<(Seq<char>, Document)>::empty(),
    {
        self.checkpoints.clear();
    }
}

} // verus!
