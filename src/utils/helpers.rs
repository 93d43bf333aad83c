//! Hex encoding and hashing.

use vstd::prelude::*;
use vstd::string::*;

verus! {

/// The lowercase hex digit of `n < 16`.
pub open spec fn hex_digit(n: u8) -> char {
    if n < 10 {
        (('0' as u8) + n) as char
    } else {
        (('a' as u8) + (n - 10)) as char
    }
}

/// Two lowercase hex digits per byte, high nibble first.
pub open spec fn hex_of(b: Seq<u8>) -> Seq<char>
    decreases b.len(),
{
    if b.len() == 0 {
        Seq::empty()
    } else {
        hex_of(b.drop_last()) + seq![hex_digit(b.last() / 16), hex_digit(b.last() % 16)]
    }
}

fn digit(n: u8) -> (r: &'static str)
    requires
        n < 16,
    ensures
        r@ == seq![hex_digit(n)],
{
    let r = match n {
        0 => "0", 1 => "1", 2 => "2", 3 => "3", 4 => "4", 5 => "5", 6 => "6", 7 => "7",
        8 => "8", 9 => "9", 10 => "a", 11 => "b", 12 => "c", 13 => "d", 14 => "e", _ => "f",
    };
    proof {
        reveal_strlit("0"); reveal_strlit("1"); reveal_strlit("2"); reveal_strlit("3");
        reveal_strlit("4"); reveal_strlit("5"); reveal_strlit("6"); reveal_strlit("7");
        reveal_strlit("8"); reveal_strlit("9"); reveal_strlit("a"); reveal_strlit("b");
        reveal_strlit("c"); reveal_strlit("d"); reveal_strlit("e"); reveal_strlit("f");
        assert(r@ =~= seq![hex_digit(n)]);
    }
    r
}

/// The bytes as lowercase hex, two digits each.
pub fn bytes_to_hex(bytes: &[u8]) -> (r: String)
    ensures
        r@ == hex_of(bytes@),
{
    let mut out = String::new();
    let mut i: usize = 0;
    while i < bytes.len()
        invariant
            0 <= i <= bytes@.len(),
            out@ == hex_of(bytes@.subrange(0, i as int)),
        decreases bytes@.len() - i,
    {
        let b = bytes[i];
        out.append(digit(b / 16));
        out.append(digit(b % 16));
        proof {
            let sub = bytes@.subrange(0, i + 1);
            assert(sub.drop_last() =~= bytes@.subrange(0, i as int));
            assert(sub.last() == b);
            assert(out@ =~= hex_of(sub));
        }
        i += 1;
    }
    proof {
        assert(bytes@.subrange(0, bytes@.len() as int) =~= bytes@);
    }
    out
}

/// The SHA-256 digest of a byte sequence.
pub uninterp spec fn sha256_of(data: Seq<u8>) -> Seq<u8>;

/// Relies on `sha2::Sha256`'s `Digest::digest`: the 32-byte SHA-256 digest
/// of the bytes.
#[verifier::external_body]
fn sha256_digest(data: &[u8]) -> (r: Vec<u8>)
    ensures
        r@ == sha256_of(data@),
        r@.len() == 32,
{
    <sha2::Sha256 as sha2::Digest>::digest(data).to_vec()
}

/// The SHA-256 digest of the text's UTF-8 bytes, in lowercase hex.
pub fn hash_sha256(input: &str) -> (r: String)
    ensures
        r@ == hex_of(sha256_of(crate::text::bytes_of(input@))),
        r@.len() == 64,
{
    let digest = sha256_digest(input.as_bytes());
    let r = bytes_to_hex(digest.as_slice());
    proof {
        lemma_hex_len(digest@);
    }
    r
}

proof fn lemma_hex_len(b: Seq<u8>)
    ensures
        hex_of(b).len() == 2 * b.len(),
    decreases b.len(),
{
    if b.len() > 0 {
        lemma_hex_len(b.drop_last());
    }
}

} // verus!
