//! Text as UTF-8 bytes: the unit in which every offset of this crate is counted.

use vstd::prelude::*;
use vstd::string::*;
use vstd::utf8::*;

verus! {

broadcast use vstd::utf8::group_utf8_lib;

/// The UTF-8 encoding of a text, the sequence that byte offsets index.
pub open spec fn bytes_of(s: Seq<char>) -> Seq<u8> {
    encode_utf8(s)
}

/// Byte `i` of the text starts a character (or is its end).
pub open spec fn on_boundary(s: Seq<char>, i: int) -> bool {
    is_char_boundary(bytes_of(s), i)
}

/// Encoding distributes over concatenation.
pub proof fn lemma_bytes_concat(a: Seq<char>, b: Seq<char>)
    ensures
        bytes_of(a + b) == bytes_of(a) + bytes_of(b),
    decreases a.len(),
{
    if a.len() == 0 {
        assert(a + b =~= b);
        assert(bytes_of(a) + bytes_of(b) =~= bytes_of(b));
    } else {
        lemma_bytes_concat(a.drop_first(), b);
        assert((a + b).drop_first() =~= a.drop_first() + b);
        assert((a + b)[0] == a[0]);
        assert(bytes_of(a + b) =~= bytes_of(a) + bytes_of(b));
    }
}

/// Two texts with the same encoding are the same text.
pub proof fn lemma_bytes_injective(a: Seq<char>, b: Seq<char>)
    requires
        bytes_of(a) == bytes_of(b),
    ensures
        a == b,
{
    encode_utf8_decode_utf8(a);
    encode_utf8_decode_utf8(b);
}

/// A boundary of a valid byte sequence that lies inside a window cut at two
/// boundaries is a boundary of the window.
pub proof fn lemma_boundary_in_window(bytes: Seq<u8>, lo: int, hi: int, j: int)
    requires
        valid_utf8(bytes),
        0 <= lo <= j <= hi <= bytes.len(),
        is_char_boundary(bytes, lo),
        is_char_boundary(bytes, hi),
        is_char_boundary(bytes, j),
    ensures
        valid_utf8(bytes.subrange(lo, hi)),
        is_char_boundary(bytes.subrange(lo, hi), j - lo),
{
    let head = bytes.subrange(0, hi);
    valid_utf8_split(bytes, hi);
    assert(valid_utf8(head));
    if lo < hi {
        assert(is_char_boundary(head, lo) <==> !is_continuation_byte(head[lo]));
        assert(is_char_boundary(bytes, lo) <==> !is_continuation_byte(bytes[lo]));
    } else {
        is_char_boundary_start_end_of_seq(head);
    }
    valid_utf8_split(head, lo);
    let w = head.subrange(lo, head.len() as int);
    assert(w =~= bytes.subrange(lo, hi));
    is_char_boundary_start_end_of_seq(w);
    if j < hi {
        assert(is_char_boundary(w, j - lo) <==> !is_continuation_byte(w[j - lo]));
        assert(is_char_boundary(bytes, j) <==> !is_continuation_byte(bytes[j]));
    }
}

/// The end of the first part of a concatenation is a character boundary.
pub proof fn lemma_boundary_at_join(x: Seq<char>, y: Seq<char>)
    ensures
        on_boundary(x + y, bytes_of(x).len() as int),
{
    lemma_bytes_concat(x, y);
    let xb = bytes_of(x);
    let yb = bytes_of(y);
    let all = bytes_of(x + y);
    is_char_boundary_start_end_of_seq(all);
    if yb.len() > 0 {
        is_char_boundary_start_end_of_seq(yb);
        is_char_boundary_iff_not_is_continuation_byte(yb, 0);
        is_char_boundary_iff_not_is_continuation_byte(all, xb.len() as int);
        assert(all[xb.len() as int] == yb[0]);
    }
}

/// Whether two texts are equal, compared byte by byte.
pub fn text_eq(a: &str, b: &str) -> (r: bool)
    ensures
        r == (a@ == b@),
{
    let x = a.as_bytes();
    let y = b.as_bytes();
    if x.len() != y.len() {
        return false;
    }
    let mut i: usize = 0;
    while i < x.len()
        invariant
            x@ == bytes_of(a@),
            y@ == bytes_of(b@),
            x@.len() == y@.len(),
            0 <= i <= x@.len(),
            forall|k: int| 0 <= k < i ==> x@[k] == y@[k],
        decreases x@.len() - i,
    {
        if x[i] != y[i] {
            return false;
        }
        i += 1;
    }
    assert(x@ =~= y@);
    proof {
        lemma_bytes_injective(a@, b@);
    }
    true
}

/// The bytes `[start, end)` of `t` replaced by `insert`.
pub fn splice(t: &str, start: usize, end: usize, insert: &str) -> (r: String)
    requires
        start <= end <= bytes_of(t@).len(),
        on_boundary(t@, start as int),
        on_boundary(t@, end as int),
    ensures
        bytes_of(r@) == bytes_of(t@).subrange(0, start as int) + bytes_of(insert@)
            + bytes_of(t@).subrange(end as int, bytes_of(t@).len() as int),
        on_boundary(r@, start + bytes_of(insert@).len()),
{
    let ghost tb = bytes_of(t@);
    let (head, rest) = t.split_at(start);
    proof {
        is_char_boundary_start_end_of_seq(tb);
        lemma_boundary_in_window(tb, start as int, tb.len() as int, end as int);
        assert(rest.spec_bytes() =~= tb.subrange(start as int, tb.len() as int));
    }
    let (_mid, tail) = rest.split_at(end - start);
    let mut r = head.to_owned();
    r.append(insert);
    r.append(tail);
    proof {
        lemma_bytes_concat(head@, insert@);
        lemma_bytes_concat(head@ + insert@, tail@);
        lemma_boundary_at_join(head@ + insert@, tail@);
        assert(tail.spec_bytes() =~= tb.subrange(end as int, tb.len() as int));
    }
    r
}

/// `a`, `b` and `c` one after another.
pub fn concat3(a: &str, b: &str, c: &str) -> (r: String)
    ensures
        r@ == a@ + b@ + c@,
{
    let mut r = a.to_owned();
    r.append(b);
    r.append(c);
    r
}

/// `pat` occurs in `h` at offset `i`.
pub open spec fn occurs_at(h: Seq<u8>, pat: Seq<u8>, i: int) -> bool {
    0 <= i && i + pat.len() <= h.len() && h.subrange(i, i + pat.len()) == pat
}

/// The bytes of `pat` occur in those of `s`.
pub open spec fn contains_text(s: Seq<char>, pat: Seq<char>) -> bool {
    exists|i: int| occurs_at(bytes_of(s), bytes_of(pat), i)
}

/// Whether `pat` occurs in `s`.
pub fn text_contains(s: &str, pat: &str) -> (r: bool)
    ensures
        r == contains_text(s@, pat@),
{
    let h = s.as_bytes();
    let p = pat.as_bytes();
    if p.len() > h.len() {
        return false;
    }
    let hl = h.len();
    let last = hl - p.len();
    let mut i: usize = 0;
    while i <= last
        invariant
            h@ == bytes_of(s@),
            p@ == bytes_of(pat@),
            last == h@.len() - p@.len(),
            hl == h@.len(),
            0 <= i <= last + 1,
            forall|k: int| 0 <= k < i ==> !occurs_at(h@, p@, k),
        decreases last + 1 - i,
    {
        let mut j: usize = 0;
        let mut matched = true;
        while matched && j < p.len()
            invariant
                h@ == bytes_of(s@),
                p@ == bytes_of(pat@),
                last == h@.len() - p@.len(),
                p@.len() <= h@.len(),
                hl == h@.len(),
                i <= last,
                0 <= j <= p@.len(),
                forall|k: int| 0 <= k < j ==> h@[i + k] == p@[k],
                !matched ==> j < p@.len() && h@[i + j] != p@[j as int],
            decreases p@.len() - j + (if matched { 1int } else { 0int }),
        {
            if h[i + j] == p[j] {
                j += 1;
            } else {
                matched = false;
            }
        }
        if matched {
            assert(h@.subrange(i as int, i + p@.len()) =~= p@);
            assert(occurs_at(h@, p@, i as int));
            return true;
        }
        assert(!occurs_at(h@, p@, i as int)) by {
            if occurs_at(h@, p@, i as int) {
                assert(h@.subrange(i as int, i + p@.len())[j as int] == p@[j as int]);
            }
        }
        if i == last {
            assert forall|k: int| !occurs_at(h@, p@, k) by {
                if 0 <= k < i {
                } else if k == i {
                }
            }
            return false;
        }
        i += 1;
    }
    false
}

/// The bytes `[start, end)` of `t`.
pub fn slice(t: &str, start: usize, end: usize) -> (r: String)
    requires
        start <= end <= bytes_of(t@).len(),
        on_boundary(t@, start as int),
        on_boundary(t@, end as int),
    ensures
        bytes_of(r@) == bytes_of(t@).subrange(start as int, end as int),
{
    let ghost tb = bytes_of(t@);
    let (_head, rest) = t.split_at(start);
    proof {
        is_char_boundary_start_end_of_seq(tb);
        lemma_boundary_in_window(tb, start as int, tb.len() as int, end as int);
        assert(rest.spec_bytes() =~= tb.subrange(start as int, tb.len() as int));
    }
    let (mid, _tail) = rest.split_at(end - start);
    proof {
        assert(mid.spec_bytes() =~= tb.subrange(start as int, end as int));
    }
    mid.to_owned()
}

} // verus!
