//! Cursors of the collaborators, by user.

use vstd::prelude::*;
use crate::store::{NamedStore, has_key, lookup, put, without, unique_keys, lemma_put_lookup};

verus! {

/// Where a collaborator's cursor is, and the colour it is drawn in.
#[derive(Debug, Clone)]
pub struct Cursor {
    pub user: String,
    pub position: usize,
    pub color: String,
}

/// The cursors of all collaborators, by user.
pub struct CursorManager {
    cursors: NamedStore<Cursor>,
}

impl View for CursorManager {
    type V = Seq<(Seq<char>, Cursor)>;

    closed spec fn view(&self) -> Seq<(Seq<char>, Cursor)> {
        self.cursors@
    }
}

impl CursorManager {
    /// No user has two cursors.
    pub open spec fn wf(&self) -> bool {
        unique_keys(self@)
    }

    /// No cursors.
    pub fn new() -> (r: Self)
        ensures
            r.wf(),
            r@ == Seq::<(Seq<char>, Cursor)>::empty(),
    {
        Self { cursors: NamedStore::new() }
    }

    /// Starts tracking `user`'s cursor, replacing an earlier one.
    pub fn register_cursor(&mut self, user: String, initial_position: usize, color: String)
        requires
            old(self).wf(),
        ensures
            final(self).wf(),
            exists|c: Cursor| final(self)@ == put(old(self)@, user@, c) && c.user@ == user@
                && c.position == initial_position && c.color == color,
            lookup(final(self)@, user@) matches Some(c) && c.user@ == user@
                && c.position == initial_position && c.color == color,
            forall|k: Seq<char>| k != user@ ==> #[trigger] lookup(final(self)@, k) == lookup(old(self)@, k),
    {
        let key = user.clone();
        let c = Cursor { user, position: initial_position, color };
        let ghost gc = c;
        self.cursors.insert(key, c);
        assert(self@ == put(old(self)@, gc.user@, gc));
        proof {
            lemma_put_lookup(old(self)@, gc.user@, gc);
        }
    }

    /// Moves `user`'s cursor; nothing happens for an unknown user.
    pub fn update_cursor(&mut self, user: String, new_position: usize)
        requires
            old(self).wf(),
        ensures
            final(self).wf(),
            !has_key(old(self)@, user@) ==> final(self)@ == old(self)@,
            lookup(old(self)@, user@) matches Some(c) ==> final(self)@ == put(old(self)@, user@,
                Cursor { position: new_position, ..c }),
    {
        let moved = match self.cursors.get(user.as_str()) {
            Some(c) => Cursor { user: c.user.clone(), position: new_position, color: c.color.clone() },
            None => {
                return;
            },
        };
        self.cursors.insert(user, moved);
    }

    /// Stops tracking `user`'s cursor.
    pub fn remove_cursor(&mut self, user: &str)
        requires
            old(self).wf(),
        ensures
            final(self).wf(),
            final(self)@ == without(old(self)@, user@),
    {
        self.cursors.remove(user);
    }

    /// Every cursor, oldest registration first.
    pub fn get_cursors(&self) -> (r: Vec<&Cursor>)
        ensures
            r@.len() == self@.len(),
            forall|i: int| 0 <= i < r@.len() ==> *r@[i] == (#[trigger] self@[i]).1,
    {
        self.cursors.values()
    }
}

} // verus!
