//! Line diffs: a document as kept, inserted and deleted pieces.

use vstd::prelude::*;
use vstd::string::*;

verus! {

/// One piece of a line diff.
#[derive(Debug, Clone)]
pub enum DiffOperation {
    /// Text only the new version has.
    Insert(String),
    /// Text only the old version has.
    Delete(String),
    /// Text both versions share.
    Equal(String),
}

/// The piece as a kind (0 insert, 1 delete, 2 equal) and its text.
pub open spec fn piece(op: DiffOperation) -> (int, Seq<char>) {
    match op {
        DiffOperation::Insert(s) => (0, s@),
        DiffOperation::Delete(s) => (1, s@),
        DiffOperation::Equal(s) => (2, s@),
    }
}

pub open spec fn pieces(ops: Seq<DiffOperation>) -> Seq<(int, Seq<char>)> {
    ops.map_values(|op: DiffOperation| piece(op))
}

/// The line diff that `difference::Changeset` computes from `old` to `new`.
pub uninterp spec fn line_changeset(old: Seq<char>, new: Seq<char>) -> Seq<(int, Seq<char>)>;

/// Relies on `difference::Changeset::new` with the split `"\n"`: its
/// `diffs` are a function of the two texts, and each `Add`, `Rem` and
/// `Same` becomes an insert, delete and equal piece.
#[verifier::external_body]
fn changeset_lines(old_version: &str, new_version: &str) -> (r: Vec<DiffOperation>)
    ensures
        pieces(r@) == line_changeset(old_version@, new_version@),
{
    difference::Changeset::new(old_version, new_version, "\n").diffs.into_iter().map(|d| match d {
        difference::Difference::Add(s) => DiffOperation::Insert(s),
        difference::Difference::Rem(s) => DiffOperation::Delete(s),
        difference::Difference::Same(s) => DiffOperation::Equal(s),
    }).collect()
}

/// The line diff from `old_version` to `new_version`.
pub fn compute_diff(old_version: &str, new_version: &str) -> (r: Vec<DiffOperation>)
    ensures
        pieces(r@) == line_changeset(old_version@, new_version@),
{
    changeset_lines(old_version, new_version)
}

/// The text of the pieces whose kind is not `skip`, in order.
pub open spec fn side(ops: Seq<DiffOperation>, skip: int) -> Seq<char>
    decreases ops.len(),
{
    if ops.len() == 0 {
        Seq::empty()
    } else {
        let p = piece(ops.last());
        side(ops.drop_last(), skip) + if p.0 == skip { Seq::empty() } else { p.1 }
    }
}

/// The text the pieces' texts make when those of kind `skip` are left out.
fn join_except(ops: &[DiffOperation], skip: u8) -> (r: String)
    ensures
        r@ == side(ops@, skip as int),
{
    let mut result = String::new();
    let mut i: usize = 0;
    while i < ops.len()
        invariant
            0 <= i <= ops@.len(),
            result@ == side(ops@.subrange(0, i as int), skip as int),
        decreases ops@.len() - i,
    {
        let ghost prev = result@;
        let (kind, text): (u8, &str) = match &ops[i] {
            DiffOperation::Insert(s) => (0, s.as_str()),
            DiffOperation::Delete(s) => (1, s.as_str()),
            DiffOperation::Equal(s) => (2, s.as_str()),
        };
        if kind != skip {
            result.append(text);
        }
        proof {
            let sub = ops@.subrange(0, i + 1);
            assert(sub.drop_last() =~= ops@.subrange(0, i as int));
            assert(sub.last() == ops@[i as int]);
            if kind == skip {
                assert(result@ =~= prev + Seq::<char>::empty());
            }
        }
        i += 1;
    }
    proof {
        assert(ops@.subrange(0, ops@.len() as int) =~= ops@);
    }
    result
}

/// The new version of a document: its equal and inserted pieces.
pub fn apply_diff(original: &str, diff_operations: &[DiffOperation]) -> (r: String)
    ensures
        r@ == side(diff_operations@, 1),
{
    join_except(diff_operations, 1)
}

/// The old version of a document: its equal and deleted pieces.
pub fn revert_diff(modified: &str, diff_operations: &[DiffOperation]) -> (r: String)
    ensures
        r@ == side(diff_operations@, 0),
{
    join_except(diff_operations, 0)
}

} // verus!
