//! MD5 digests as lowercase hex text, through the `md5` crate.

use vstd::prelude::*;
use vstd::string::*;

verus! {

/// The lowercase hex digits.
pub open spec fn hex_digits() -> Seq<char> {
    seq!['0', '1', '2', '3', '4', '5', '6', '7', '8', '9', 'a', 'b', 'c', 'd', 'e', 'f']
}

/// The lowercase hex text of `s`: two digits per byte, high nibble first.
pub open spec fn hex_lower(s: Seq<u8>) -> Seq<char>
    decreases s.len(),
{
    if s.len() == 0 {
        Seq::empty()
    } else {
        hex_lower(s.drop_last()) + seq![hex_digits()[s.last() as int / 16], hex_digits()[s.last() as int % 16]]
    }
}

/// Two hex digits per byte.
pub proof fn lemma_hex_lower_len(s: Seq<u8>)
    ensures
        hex_lower(s).len() == 2 * s.len(),
    decreases s.len(),
{
    if s.len() > 0 {
        lemma_hex_lower_len(s.drop_last());
    }
}

/// The MD5 digest of `data` as `md5::compute` gives it.
pub uninterp spec fn md5_digest(data: Seq<u8>) -> Seq<u8>;

/// `md5::compute`: the 16 bytes of the MD5 digest of `data`.
#[verifier::external_body]
fn md5_compute(data: &[u8]) -> (d: Vec<u8>)
    ensures
        d@ == md5_digest(data@),
        d@.len() == 16,
{
    md5::compute(data).0.to_vec()
}

fn push_hex_digit(s: &mut String, v: u8)
    requires
        v < 16,
    ensures
        final(s)@ == old(s)@ + seq![hex_digits()[v as int]],
{
    let digits = "0123456789abcdef";
    proof {
        reveal_strlit("0123456789abcdef");
        assert(digits@ =~= hex_digits());
    }
    let d = digits.substring_ascii(v as usize, v as usize + 1);
    assert(d@ =~= seq![hex_digits()[v as int]]);
    s.append(d);
}

/// The lowercase hex text of `bytes`.
pub fn hex_string(bytes: &[u8]) -> (s: String)
    ensures
        s@ == hex_lower(bytes@),
{
    let mut s = String::new();
    let mut i: usize = 0;
    while i < bytes.len()
        invariant
            i <= bytes@.len(),
            s@ == hex_lower(bytes@.take(i as int)),
        decreases bytes.len() - i,
    {
        let b = bytes[i];
        push_hex_digit(&mut s, b / 16);
        push_hex_digit(&mut s, b % 16);
        assert(bytes@.take(i + 1).drop_last() =~= bytes@.take(i as int));
        i = i + 1;
    }
    assert(bytes@.take(bytes@.len() as int) =~= bytes@);
    s
}

/// MD5 digests.
pub struct Md5();

impl Md5 {
    /// The MD5 digest of `data` as 32 lowercase hex digits.
    pub fn hash_slice(data: &[u8]) -> (s: String)
        ensures
            s@ == hex_lower(md5_digest(data@)),
            s@.len() == 32,
    {
        let d = md5_compute(data);
        proof {
            lemma_hex_lower_len(d@);
        }
        hex_string(d.as_slice())
    }

    /// The MD5 digest of the UTF-8 bytes of `data` as 32 lowercase hex
    /// digits.
    pub fn hash(data: &str) -> (s: String)
        ensures
            s@ == hex_lower(md5_digest(data.spec_bytes())),
            s@.len() == 32,
    {
        Self::hash_slice(data.as_bytes())
    }
}

} // verus!
