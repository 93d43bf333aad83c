//! Single-hunk diff between two text snapshots, and its left inverse.

use vstd::prelude::*;
use vstd::utf8::*;
use vstd::string::*;
use crate::text::{bytes_of, on_boundary, splice, lemma_boundary_in_window};

verus! {

broadcast use vstd::utf8::encode_utf8_valid_utf8;

/// One change to a text. Offsets are byte offsets into the text the change
/// was computed against.
#[derive(Debug, PartialEq, Clone)]
pub enum DiffOperation {
    /// Insert the text at the position.
    Insert(usize, String),
    /// Delete the bytes `[start, end)`.
    Delete(usize, usize),
    /// Replace the bytes `[start, end)` by the text.
    Replace(usize, usize, String),
}

/// What a `DiffOperation` means, over bytes.
pub enum Edit {
    Insert(int, Seq<u8>),
    Delete(int, int),
    Replace(int, int, Seq<u8>),
}

impl View for DiffOperation {
    type V = Edit;

    open spec fn view(&self) -> Edit {
        match self {
            DiffOperation::Insert(p, s) => Edit::Insert(*p as int, bytes_of(s@)),
            DiffOperation::Delete(a, b) => Edit::Delete(*a as int, *b as int),
            DiffOperation::Replace(a, b, s) => Edit::Replace(*a as int, *b as int, bytes_of(s@)),
        }
    }
}

/// The edits a sequence of operations stands for.
pub open spec fn edits_of(ops: Seq<DiffOperation>) -> Seq<Edit> {
    ops.map_values(|op: DiffOperation| op@)
}

/// The range an edit replaces and the bytes it puts there.
pub open spec fn edit_parts(e: Edit) -> (int, int, Seq<u8>) {
    match e {
        Edit::Insert(p, s) => (p, p, s),
        Edit::Delete(a, b) => (a, b, Seq::<u8>::empty()),
        Edit::Replace(a, b, s) => (a, b, s),
    }
}

/// One edit applied to a text; `None` when its range does not lie on
/// character boundaries of the text.
pub open spec fn apply_edit(t: Seq<u8>, e: Edit) -> Option<Seq<u8>> {
    let (start, end, ins) = edit_parts(e);
    if 0 <= start <= end <= t.len() && is_char_boundary(t, start) && is_char_boundary(t, end) {
        Some(t.subrange(0, start) + ins + t.subrange(end, t.len() as int))
    } else {
        None
    }
}

/// Edits applied one after another; `None` as soon as one does not apply.
pub open spec fn apply_edits(t: Seq<u8>, es: Seq<Edit>) -> Option<Seq<u8>>
    decreases es.len(),
{
    if es.len() == 0 {
        Some(t)
    } else {
        match apply_edit(t, es[0]) {
            Some(u) => apply_edits(u, es.drop_first()),
            None => None,
        }
    }
}

/// Length of the common prefix of `a` and `b` from index `i` on, plus `i`.
pub open spec fn prefix_from(a: Seq<u8>, b: Seq<u8>, i: int) -> int
    decreases a.len() - i,
{
    if 0 <= i < a.len() && i < b.len() && a[i] == b[i] {
        prefix_from(a, b, i + 1)
    } else {
        i
    }
}

/// Length of the common suffix of `a` and `b` from `i` on, plus `i`, never
/// above `limit`.
pub open spec fn suffix_from(a: Seq<u8>, b: Seq<u8>, limit: int, i: int) -> int
    decreases limit - i,
{
    if 0 <= i < limit && a[a.len() - 1 - i] == b[b.len() - 1 - i] {
        suffix_from(a, b, limit, i + 1)
    } else {
        i
    }
}

/// The largest `q <= p` at which both texts have a character boundary.
pub open spec fn start_boundary(a: Seq<u8>, b: Seq<u8>, p: int) -> int
    decreases p,
{
    if p <= 0 {
        0
    } else if is_char_boundary(a, p) && is_char_boundary(b, p) {
        p
    } else {
        start_boundary(a, b, p - 1)
    }
}

/// The largest `q <= s` such that both texts have a character boundary `q`
/// bytes before their end.
pub open spec fn end_boundary(a: Seq<u8>, b: Seq<u8>, s: int) -> int
    decreases s,
{
    if s <= 0 {
        0
    } else if is_char_boundary(a, a.len() - s) && is_char_boundary(b, b.len() - s) {
        s
    } else {
        end_boundary(a, b, s - 1)
    }
}

/// The byte `k` places before the end.
pub open spec fn from_end(a: Seq<u8>, k: int) -> u8 {
    a[a.len() - 1 - k]
}

pub open spec fn min_len(a: Seq<u8>, b: Seq<u8>) -> int {
    if a.len() < b.len() { a.len() as int } else { b.len() as int }
}

/// Bytes the two texts share at their start, cut back to a character boundary.
pub open spec fn shared_prefix(a: Seq<u8>, b: Seq<u8>) -> int {
    start_boundary(a, b, prefix_from(a, b, 0))
}

/// Bytes the two texts share at their end after the shared prefix, cut back
/// to a character boundary.
pub open spec fn shared_suffix(a: Seq<u8>, b: Seq<u8>) -> int {
    end_boundary(a, b, suffix_from(a, b, min_len(a, b) - shared_prefix(a, b), 0))
}

/// The single-hunk diff of two byte texts: nothing when they are equal,
/// otherwise one insertion, deletion or replacement of the region between the
/// shared prefix and the shared suffix.
pub open spec fn diff_spec(a: Seq<u8>, b: Seq<u8>) -> Seq<Edit> {
    let p = shared_prefix(a, b);
    let s = shared_suffix(a, b);
    let old_mid = a.subrange(p, a.len() - s);
    let new_mid = b.subrange(p, b.len() - s);
    if old_mid.len() == 0 && new_mid.len() > 0 {
        seq![Edit::Insert(p, new_mid)]
    } else if old_mid.len() > 0 && new_mid.len() == 0 {
        seq![Edit::Delete(p, p + old_mid.len())]
    } else if old_mid.len() > 0 && new_mid.len() > 0 && old_mid != new_mid {
        seq![Edit::Replace(p, p + old_mid.len(), new_mid)]
    } else {
        seq![]
    }
}

proof fn lemma_prefix_from(a: Seq<u8>, b: Seq<u8>, i: int)
    requires
        0 <= i <= min_len(a, b),
    ensures
        i <= prefix_from(a, b, i) <= min_len(a, b),
        forall|k: int| i <= k < prefix_from(a, b, i) ==> a[k] == b[k],
        prefix_from(a, b, i) < min_len(a, b) ==> a[prefix_from(a, b, i)] != b[prefix_from(a, b, i)],
    decreases a.len() - i,
{
    if i < a.len() && i < b.len() && a[i] == b[i] {
        lemma_prefix_from(a, b, i + 1);
    }
}

proof fn lemma_suffix_from(a: Seq<u8>, b: Seq<u8>, limit: int, i: int)
    requires
        0 <= i <= limit <= min_len(a, b),
    ensures
        i <= suffix_from(a, b, limit, i) <= limit,
        forall|k: int| i <= k < suffix_from(a, b, limit, i) ==> #[trigger] from_end(a, k) == from_end(b, k),
    decreases limit - i,
{
    if i < limit && a[a.len() - 1 - i] == b[b.len() - 1 - i] {
        lemma_suffix_from(a, b, limit, i + 1);
    }
}

proof fn lemma_start_boundary(a: Seq<u8>, b: Seq<u8>, p: int)
    requires
        valid_utf8(a),
        valid_utf8(b),
        0 <= p,
    ensures
        0 <= start_boundary(a, b, p) <= p,
        is_char_boundary(a, start_boundary(a, b, p)),
        is_char_boundary(b, start_boundary(a, b, p)),
    decreases p,
{
    is_char_boundary_start_end_of_seq(a);
    is_char_boundary_start_end_of_seq(b);
    if p > 0 && !(is_char_boundary(a, p) && is_char_boundary(b, p)) {
        lemma_start_boundary(a, b, p - 1);
    }
}

proof fn lemma_end_boundary(a: Seq<u8>, b: Seq<u8>, s: int)
    requires
        valid_utf8(a),
        valid_utf8(b),
        0 <= s,
    ensures
        0 <= end_boundary(a, b, s) <= s,
        is_char_boundary(a, a.len() - end_boundary(a, b, s)),
        is_char_boundary(b, b.len() - end_boundary(a, b, s)),
    decreases s,
{
    is_char_boundary_start_end_of_seq(a);
    is_char_boundary_start_end_of_seq(b);
    if s > 0 && !(is_char_boundary(a, a.len() - s) && is_char_boundary(b, b.len() - s)) {
        lemma_end_boundary(a, b, s - 1);
    }
}

/// The facts about the shared prefix and suffix that the diff rests on.
proof fn lemma_shared_bounds(a: Seq<u8>, b: Seq<u8>)
    requires
        valid_utf8(a),
        valid_utf8(b),
    ensures
        0 <= shared_prefix(a, b),
        0 <= shared_suffix(a, b),
        shared_prefix(a, b) + shared_suffix(a, b) <= min_len(a, b),
        is_char_boundary(a, shared_prefix(a, b)),
        is_char_boundary(b, shared_prefix(a, b)),
        is_char_boundary(a, a.len() - shared_suffix(a, b)),
        is_char_boundary(b, b.len() - shared_suffix(a, b)),
        a.subrange(0, shared_prefix(a, b)) == b.subrange(0, shared_prefix(a, b)),
        a.subrange(a.len() - shared_suffix(a, b), a.len() as int)
            == b.subrange(b.len() - shared_suffix(a, b), b.len() as int),
{
    lemma_prefix_from(a, b, 0);
    let raw_p = prefix_from(a, b, 0);
    lemma_start_boundary(a, b, raw_p);
    let p = shared_prefix(a, b);
    let limit = min_len(a, b) - p;
    lemma_suffix_from(a, b, limit, 0);
    let raw_s = suffix_from(a, b, limit, 0);
    lemma_end_boundary(a, b, raw_s);
    let s = shared_suffix(a, b);
    assert(a.subrange(0, p) =~= b.subrange(0, p));
    assert forall|k: int| 0 <= k < s implies #[trigger] a.subrange(a.len() - s, a.len() as int)[k]
        == b.subrange(b.len() - s, b.len() as int)[k] by {
        let j = s - 1 - k;
        assert(from_end(a, j) == from_end(b, j));
    }
    assert(a.subrange(a.len() - s, a.len() as int) =~= b.subrange(b.len() - s, b.len() as int));
}

/// Applying the diff of two texts to the first yields the second.
pub proof fn lemma_diff_round_trip(old: Seq<char>, new: Seq<char>)
    ensures
        apply_edits(bytes_of(old), diff_spec(bytes_of(old), bytes_of(new))) == Some(bytes_of(new)),
{
    let a = bytes_of(old);
    let b = bytes_of(new);
    lemma_shared_bounds(a, b);
    let p = shared_prefix(a, b);
    let s = shared_suffix(a, b);
    let old_mid = a.subrange(p, a.len() - s);
    let new_mid = b.subrange(p, b.len() - s);
    let es = diff_spec(a, b);
    let pre = a.subrange(0, p);
    let a_suf = a.subrange(a.len() - s, a.len() as int);
    let b_suf = b.subrange(b.len() - s, b.len() as int);
    assert(b =~= pre + new_mid + b_suf);
    assert(a =~= pre + old_mid + a_suf);
    if es.len() == 1 {
        let u = pre + new_mid + a_suf;
        if old_mid.len() == 0 {
            assert(a.subrange(p, a.len() as int) =~= a_suf);
        } else {
            assert(a.subrange(p + old_mid.len(), a.len() as int) =~= a_suf);
        }
        if new_mid.len() == 0 {
            assert(u =~= pre + Seq::<u8>::empty() + a_suf);
        }
        assert(apply_edit(a, es[0]) == Some(u));
        assert(es.drop_first() =~= Seq::<Edit>::empty());
        assert(apply_edits(u, es.drop_first()) == Some(u));
        assert(u =~= b);
    } else {
        assert(es.len() == 0);
        assert(old_mid =~= new_mid);
        assert(a =~= b);
    }
}

/// The diff of a text with itself is empty.
pub proof fn lemma_diff_identical(s: Seq<char>)
    ensures
        diff_spec(bytes_of(s), bytes_of(s)) == Seq::<Edit>::empty(),
{
    let a = bytes_of(s);
    lemma_shared_bounds(a, a);
    lemma_prefix_from(a, a, 0);
    assert(prefix_from(a, a, 0) == a.len());
    is_char_boundary_start_end_of_seq(a);
    assert(shared_prefix(a, a) == a.len());
    assert(diff_spec(a, a) =~= Seq::<Edit>::empty());
}

/// Computes the changes between two versions of a document.
pub struct DiffEngine;

impl DiffEngine {
    /// The single-hunk diff of `old_text` and `new_text`: empty when they are
    /// equal, else the one operation that turns the differing middle of
    /// `old_text` into that of `new_text`.
    pub fn diff(old_text: &str, new_text: &str) -> (r: Vec<DiffOperation>)
        ensures
            edits_of(r@) == diff_spec(bytes_of(old_text@), bytes_of(new_text@)),
            r@.len() <= 1,
            r@.len() == 0 <==> old_text@ == new_text@,
    {
        let ghost a = bytes_of(old_text@);
        let ghost b = bytes_of(new_text@);
        proof {
            lemma_shared_bounds(a, b);
        }
        let mut operations: Vec<DiffOperation> = Vec::new();
        let common_prefix = DiffEngine::find_common_prefix(old_text, new_text);
        let common_suffix = DiffEngine::find_common_suffix(old_text, new_text, common_prefix);
        let old_len = old_text.as_bytes().len();
        let new_len = new_text.as_bytes().len();
        let old_mid_len = old_len - common_suffix - common_prefix;
        let new_mid_len = new_len - common_suffix - common_prefix;
        let ghost old_mid = a.subrange(common_prefix as int, a.len() - common_suffix);
        let ghost new_mid = b.subrange(common_prefix as int, b.len() - common_suffix);
        proof {
            assert(old_mid.len() == old_mid_len);
            assert(new_mid.len() == new_mid_len);
        }
        if old_mid_len == 0 && new_mid_len > 0 {
            let ins = Self::middle(new_text, common_prefix, common_suffix);
            operations.push(DiffOperation::Insert(common_prefix, ins));
        } else if old_mid_len > 0 && new_mid_len == 0 {
            operations.push(DiffOperation::Delete(common_prefix, common_prefix + old_mid_len));
        } else if old_mid_len > 0 && new_mid_len > 0 {
            let om = Self::middle(old_text, common_prefix, common_suffix);
            let nm = Self::middle(new_text, common_prefix, common_suffix);
            if !crate::text::text_eq(om.as_str(), nm.as_str()) {
                proof {
                    if old_mid == new_mid {
                        crate::text::lemma_bytes_injective(om@, nm@);
                    }
                }
                operations.push(DiffOperation::Replace(common_prefix, common_prefix + old_mid_len, nm));
            } else {
                proof {
                    crate::text::lemma_bytes_injective(om@, nm@);
                }
            }
        }
        proof {
            if operations@.len() == 1 {
                assert(edits_of(operations@)[0] == operations@[0]@);
            }
            assert(edits_of(operations@) =~= diff_spec(a, b));
            if operations@.len() == 0 {
                if old_mid.len() > 0 && new_mid.len() > 0 {
                    assert(old_mid == new_mid);
                }
                assert(a =~= a.subrange(0, common_prefix as int) + old_mid + a.subrange(a.len() - common_suffix, a.len() as int));
                assert(b =~= b.subrange(0, common_prefix as int) + new_mid + b.subrange(b.len() - common_suffix, b.len() as int));
                crate::text::lemma_bytes_injective(old_text@, new_text@);
            } else if old_text@ == new_text@ {
                lemma_diff_identical(old_text@);
            }
        }
        operations
    }

    /// Applies operations one after another to `old_text`; `None` when one of
    /// them does not lie on character boundaries of the text it meets.
    pub fn apply(old_text: &str, operations: &Vec<DiffOperation>) -> (r: Option<String>)
        ensures
            r matches Some(t) ==> apply_edits(bytes_of(old_text@), edits_of(operations@)) == Some(bytes_of(t@)),
            r is None ==> apply_edits(bytes_of(old_text@), edits_of(operations@)) is None,
    {
        let mut current = old_text.to_owned();
        let mut i: usize = 0;
        let ghost es = edits_of(operations@);
        proof {
            assert(es.subrange(0, es.len() as int) =~= es);
        }
        while i < operations.len()
            invariant
                0 <= i <= operations@.len(),
                es == edits_of(operations@),
                apply_edits(bytes_of(old_text@), es)
                    == apply_edits(bytes_of(current@), es.subrange(i as int, es.len() as int)),
            decreases operations@.len() - i,
        {
            let ghost rest = es.subrange(i as int, es.len() as int);
            proof {
                assert(rest.drop_first() =~= es.subrange(i + 1, es.len() as int));
                assert(rest[0] == operations@[i as int]@);
            }
            let (start, end, ins) = match &operations[i] {
                DiffOperation::Insert(p, s) => (*p, *p, s.as_str()),
                DiffOperation::Delete(a, b) => (*a, *b, ""),
                DiffOperation::Replace(a, b, s) => (*a, *b, s.as_str()),
            };
            proof {
                reveal_strlit("");
            }
            let len = current.as_str().as_bytes().len();
            let ghost cb = bytes_of(current@);
            proof {
                assert(rest[0] == (match rest[0] {
                    Edit::Insert(p, s) => Edit::Insert(start as int, bytes_of(ins@)),
                    Edit::Delete(a, b) => Edit::Delete(start as int, end as int),
                    Edit::Replace(a, b, s) => Edit::Replace(start as int, end as int, bytes_of(ins@)),
                }));
                assert(bytes_of(""@) =~= Seq::<u8>::empty());
            }
            if start <= end && end <= len && current.as_str().is_char_boundary(start)
                && current.as_str().is_char_boundary(end) {
                current = splice(current.as_str(), start, end, ins);
                assert(apply_edit(cb, rest[0]) == Some(bytes_of(current@)));
            } else {
                assert(apply_edit(cb, rest[0]) is None);
                return None;
            }
            i += 1;
        }
        proof {
            assert(es.subrange(i as int, es.len() as int) =~= Seq::<Edit>::empty());
        }
        Some(current)
    }

    /// The bytes of `t` between the first `prefix` and the last `suffix`.
    fn middle(t: &str, prefix: usize, suffix: usize) -> (r: String)
        requires
            prefix + suffix <= bytes_of(t@).len(),
            on_boundary(t@, prefix as int),
            on_boundary(t@, bytes_of(t@).len() - suffix),
        ensures
            bytes_of(r@) == bytes_of(t@).subrange(prefix as int, bytes_of(t@).len() - suffix),
    {
        let ghost tb = bytes_of(t@);
        let (_head, rest) = t.split_at(prefix);
        proof {
            is_char_boundary_start_end_of_seq(tb);
            lemma_boundary_in_window(tb, prefix as int, tb.len() as int, tb.len() - suffix);
            assert(rest.spec_bytes() =~= tb.subrange(prefix as int, tb.len() as int));
        }
        let (mid, _tail) = rest.split_at(rest.as_bytes().len() - suffix);
        let r = mid.to_owned();
        proof {
            assert(mid.spec_bytes() =~= tb.subrange(prefix as int, tb.len() - suffix));
        }
        r
    }

    /// Length of the common prefix of the two texts, cut back to a byte
    /// offset that starts a character in both.
    fn find_common_prefix(old_text: &str, new_text: &str) -> (r: usize)
        ensures
            r == shared_prefix(bytes_of(old_text@), bytes_of(new_text@)),
    {
        let a = old_text.as_bytes();
        let b = new_text.as_bytes();
        let shorter = if a.len() < b.len() { a.len() } else { b.len() };
        let mut i: usize = 0;
        while i < shorter && a[i] == b[i]
            invariant
                a@ == bytes_of(old_text@),
                b@ == bytes_of(new_text@),
                shorter as int == min_len(a@, b@),
                0 <= i <= shorter,
                prefix_from(a@, b@, 0) == prefix_from(a@, b@, i as int),
            decreases shorter - i,
        {
            i += 1;
        }
        while i > 0 && !(old_text.is_char_boundary(i) && new_text.is_char_boundary(i))
            invariant
                a@ == bytes_of(old_text@),
                b@ == bytes_of(new_text@),
                0 <= i,
                shared_prefix(a@, b@) == start_boundary(a@, b@, i as int),
            decreases i,
        {
            i -= 1;
        }
        i
    }

    /// Length of the common suffix of the two texts within what follows the
    /// common prefix, cut back so that it starts a character in both.
    fn find_common_suffix(old_text: &str, new_text: &str, common_prefix: usize) -> (r: usize)
        requires
            common_prefix == shared_prefix(bytes_of(old_text@), bytes_of(new_text@)),
        ensures
            r == shared_suffix(bytes_of(old_text@), bytes_of(new_text@)),
    {
        let a = old_text.as_bytes();
        let b = new_text.as_bytes();
        proof {
            lemma_shared_bounds(a@, b@);
        }
        let old_len = a.len();
        let new_len = b.len();
        let limit = if old_len < new_len { old_len } else { new_len } - common_prefix;
        let mut i: usize = 0;
        while i < limit && a[old_len - 1 - i] == b[new_len - 1 - i]
            invariant
                a@ == bytes_of(old_text@),
                b@ == bytes_of(new_text@),
                old_len == a@.len(),
                new_len == b@.len(),
                limit as int == min_len(a@, b@) - common_prefix,
                0 <= i <= limit,
                suffix_from(a@, b@, limit as int, 0) == suffix_from(a@, b@, limit as int, i as int),
            decreases limit - i,
        {
            i += 1;
        }
        while i > 0 && !(old_text.is_char_boundary(old_len - i) && new_text.is_char_boundary(new_len - i))
            invariant
                a@ == bytes_of(old_text@),
                b@ == bytes_of(new_text@),
                old_len == a@.len(),
                new_len == b@.len(),
                0 <= i <= limit,
                limit as int == min_len(a@, b@) - common_prefix,
                shared_suffix(a@, b@) == end_boundary(a@, b@, i as int),
            decreases i,
        {
            i -= 1;
        }
        i
    }
}

} // verus!
