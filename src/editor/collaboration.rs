//! Full-text edits from collaborators, applied in the order they arrive.

use vstd::prelude::*;

verus! {

/// A user's edit: the full new content and where the cursor ended up.
#[derive(Debug, Clone)]
pub struct Edit {
    pub user: String,
    pub content: String,
    pub cursor_position: usize,
    pub timestamp: String,
}

/// The shared text and the log of every edit applied to it.
pub struct CollaborationManager {
    document: String,
    edits: Vec<Edit>,
}

impl CollaborationManager {
    /// The current text.
    pub closed spec fn text(&self) -> Seq<char> {
        self.document@
    }

    /// Every edit applied so far, oldest first.
    pub closed spec fn log(&self) -> Seq<Edit> {
        self.edits@
    }

    /// An empty text and an empty log.
    pub fn new() -> (r: Self)
        ensures
            r.text() == Seq::<char>::empty(),
            r.log() == Seq::<Edit>::empty(),
    {
        Self { document: String::new(), edits: Vec::new() }
    }

    /// Logs `edit` and makes its content the text: the last edit to arrive
    /// wins, with no merge.
    pub fn apply_edit(&mut self, edit: Edit)
        ensures
            final(self).log() == old(self).log().push(edit),
            final(self).text() == edit.content@,
    {
        self.document = edit.content.clone();
        self.edits.push(edit);
    }

    /// The current text.
    pub fn get_document(&self) -> (r: String)
        ensures
            r@ == self.text(),
    {
        self.document.clone()
    }
}

/// Of two edits applied one after the other, the second one's content is
/// the text, and the log holds both in the order they arrived.
pub proof fn lemma_later_edit_wins(m0: CollaborationManager, a: Edit, m1: CollaborationManager, b: Edit, m2: CollaborationManager)
    requires
        m1.log() == m0.log().push(a),
        m1.text() == a.content@,
        m2.log() == m1.log().push(b),
        m2.text() == b.content@,
    ensures
        m2.text() == b.content@,
        m2.log() == m0.log() + seq![a, b],
{
    assert(m2.log() =~= m0.log() + seq![a, b]);
}

} // verus!
