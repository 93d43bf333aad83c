//! The canonical shared document and its append-only history of updates.

use vstd::prelude::*;
use vstd::string::to_string_from_display_ensures;

verus! {

/// Seconds since the Unix epoch, by the system clock.
///
/// Relies on `std::time::SystemTime::now` and `duration_since`; a clock set
/// before the epoch reads as 0. Nothing is promised of the value.
#[verifier::external_body]
fn unix_time_secs() -> u64 {
    match std::time::SystemTime::now().duration_since(std::time::UNIX_EPOCH) {
        Ok(d) => d.as_secs(),
        Err(_) => 0,
    }
}

/// A full-text update of the document by one author.
#[derive(Debug, Clone)]
pub struct DocumentUpdate {
    pub content: String,
    pub user: String,
    pub timestamp: String,
}

impl DocumentUpdate {
    /// An update to `content` by `user`, stamped with the current time in
    /// seconds since the Unix epoch.
    pub fn new(content: &str, user: &str) -> (r: Self)
        ensures
            r.content@ == content@,
            r.user@ == user@,
            exists|secs: u64| to_string_from_display_ensures::<u64>(&secs, r.timestamp),
    {
        let secs = unix_time_secs();
        Self::stamped(content, user, secs)
    }

    /// An update to `content` by `user` stamped with `secs`, written in
    /// decimal.
    pub fn stamped(content: &str, user: &str, secs: u64) -> (r: Self)
        ensures
            r.content@ == content@,
            r.user@ == user@,
            to_string_from_display_ensures::<u64>(&secs, r.timestamp),
    {
        DocumentUpdate { content: content.to_owned(), user: user.to_owned(), timestamp: secs.to_string() }
    }
}

/// The document that all clients edit, with every update applied to it.
#[derive(Debug, Clone)]
pub struct Document {
    pub content: String,
    pub history: Vec<DocumentUpdate>,
}

impl Document {
    /// An empty document with no history.
    pub fn new() -> (r: Self)
        ensures
            r.content@ == Seq::<char>::empty(),
            r.history@ == Seq::<DocumentUpdate>::empty(),
    {
        Document { content: String::new(), history: Vec::new() }
    }

    /// Appends `update` to the history; its content becomes the document's.
    pub fn apply_update(&mut self, update: DocumentUpdate)
        ensures
            final(self).history@ == old(self).history@.push(update),
            final(self).content@ == update.content@,
    {
        self.content = update.content.clone();
        self.history.push(update);
    }

    /// The current content.
    pub fn get_content(&self) -> (r: &str)
        ensures
            r@ == self.content@,
    {
        self.content.as_str()
    }

    /// Every update applied so far, oldest first.
    pub fn get_history(&self) -> (r: &Vec<DocumentUpdate>)
        ensures
            r@ == self.history@,
    {
        &self.history
    }

    /// Drops the newest update and restores the content of the one before it,
    /// which is returned. The oldest update always stays: with fewer than two
    /// updates nothing changes and `None` comes back.
    pub fn undo_last_update(&mut self) -> (r: Option<&DocumentUpdate>)
        ensures
            old(self).history@.len() <= 1 ==> r is None && *final(self) == *old(self),
            old(self).history@.len() > 1 ==> final(self).history@ == old(self).history@.drop_last()
                && final(self).content@ == final(self).history@.last().content@
                && r == Some(&final(self).history@.last()),
    {
        if self.history.len() > 1 {
            self.history.pop();
            let n = self.history.len();
            self.content = self.history[n - 1].content.clone();
            Some(&self.history[n - 1])
        } else {
            None
        }
    }

    /// Applies an update again after an undo, exactly as `apply_update` does.
    pub fn redo_update(&mut self, update: DocumentUpdate)
        ensures
            final(self).history@ == old(self).history@.push(update),
            final(self).content@ == update.content@,
    {
        self.apply_update(update);
    }
}

/// Updates win in the order they arrive: after `a` and then `b` are applied,
/// the content is `b`'s, and the history ends with `a` followed by `b`.
pub proof fn lemma_last_arrival_wins(d0: Document, a: DocumentUpdate, d1: Document, b: DocumentUpdate, d2: Document)
    requires
        d1.history@ == d0.history@.push(a),
        d1.content@ == a.content@,
        d2.history@ == d1.history@.push(b),
        d2.content@ == b.content@,
    ensures
        d2.content@ == b.content@,
        d2.history@ == d0.history@ + seq![a, b],
{
    assert(d2.history@ =~= d0.history@ + seq![a, b]);
}

} // verus!
