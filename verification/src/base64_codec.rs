//! Standard base64 (RFC 4648 alphabet, with padding), through the `base64`
//! crate.

use vstd::prelude::*;
use ::base64::Engine as _;

verus! {

/// The ASCII code of the base64 digit of value `v` (0 to 63).
pub open spec fn b64_digit(v: int) -> u8 {
    if v < 26 {
        (65 + v) as u8
    } else if v < 52 {
        (97 + v - 26) as u8
    } else if v < 62 {
        (48 + v - 52) as u8
    } else if v == 62 {
        43u8
    } else {
        47u8
    }
}

/// Standard base64 of `s`: each group of three bytes gives four digits; a
/// last group of one or two bytes gives two or three digits and `=` up to
/// four.
pub open spec fn b64_encode(s: Seq<u8>) -> Seq<u8>
    decreases s.len(),
{
    let a = s[0] as int;
    let b = s[1] as int;
    let c = s[2] as int;
    if s.len() == 0 {
        Seq::empty()
    } else if s.len() == 1 {
        seq![b64_digit(a / 4), b64_digit((a % 4) * 16), 61u8, 61u8]
    } else if s.len() == 2 {
        seq![b64_digit(a / 4), b64_digit((a % 4) * 16 + b / 16), b64_digit((b % 16) * 4), 61u8]
    } else {
        seq![
            b64_digit(a / 4),
            b64_digit((a % 4) * 16 + b / 16),
            b64_digit((b % 16) * 4 + c / 64),
            b64_digit(c % 64),
        ] + b64_encode(s.skip(3))
    }
}

/// A byte of standard base64 text: a letter, a digit, `+`, `/` or the
/// padding `=`.
pub open spec fn b64_text_byte(b: u8) -> bool {
    (65 <= b <= 90) || (97 <= b <= 122) || (48 <= b <= 57) || b == 43 || b == 47 || b == 61
}

proof fn lemma_b64_digit(v: int)
    requires
        0 <= v < 64,
    ensures
        b64_text_byte(b64_digit(v)),
        b64_digit(v) != 61u8,
{
}

/// Standard base64 text has four characters for every three bytes or part
/// of them, and holds only letters, digits, `+`, `/` and `=` (so no `-`, the
/// URL-safe alphabet's digit 62).
pub proof fn lemma_b64_encode_shape(s: Seq<u8>)
    ensures
        b64_encode(s).len() == 4 * ((s.len() + 2) / 3),
        b64_encode(s).len() % 4 == 0,
        forall|i: int| 0 <= i < b64_encode(s).len() ==> b64_text_byte(#[trigger] b64_encode(s)[i]),
        forall|i: int| 0 <= i < b64_encode(s).len() ==> #[trigger] b64_encode(s)[i] != 45u8,
    decreases s.len(),
{
    let e = b64_encode(s);
    if s.len() > 0 {
        let a = s[0] as int;
        let b = s[1] as int;
        let c = s[2] as int;
        lemma_b64_digit(a / 4);
        if s.len() == 1 {
            lemma_b64_digit((a % 4) * 16);
        } else if s.len() == 2 {
            lemma_b64_digit((a % 4) * 16 + b / 16);
            lemma_b64_digit((b % 16) * 4);
        } else {
            lemma_b64_encode_shape(s.skip(3));
            lemma_b64_digit((a % 4) * 16 + b / 16);
            lemma_b64_digit((b % 16) * 4 + c / 64);
            lemma_b64_digit(c % 64);
            let head = seq![
                b64_digit(a / 4),
                b64_digit((a % 4) * 16 + b / 16),
                b64_digit((b % 16) * 4 + c / 64),
                b64_digit(c % 64),
            ];
            assert(e == head + b64_encode(s.skip(3)));
            assert forall|i: int| 0 <= i < e.len() implies b64_text_byte(#[trigger] e[i]) by {
                if i >= 4 {
                    assert(e[i] == b64_encode(s.skip(3))[i - 4]);
                }
            }
        }
    }
}

/// The bytes of ASCII characters are the bytes themselves.
proof fn lemma_ascii_text_bytes(b: Seq<u8>)
    requires
        forall|i: int| 0 <= i < b.len() ==> b[i] < 128,
    ensures
        vstd::utf8::encode_utf8(ascii_chars(b)) == b,
{
    let chars = ascii_chars(b);
    assert(vstd::utf8::is_ascii_chars(chars)) by {
        assert forall|i: int| 0 <= i < chars.len() implies '\0' <= #[trigger] chars[i] <= '\u{7f}' by {
            assert(chars[i] == b[i] as char);
        }
    }
    vstd::utf8::is_ascii_chars_encode_utf8(chars);
    let e = vstd::utf8::encode_utf8(chars);
    assert forall|i: int| 0 <= i < b.len() implies e[i] == b[i] by {
        assert(chars[i] as u8 == e[i]);
        assert(chars[i] == b[i] as char);
    }
    assert(e =~= b);
}

/// The characters of ASCII bytes.
pub open spec fn ascii_chars(s: Seq<u8>) -> Seq<char> {
    s.map_values(|b: u8| b as char)
}

/// Why base64 input does not decode.
#[derive(Debug, PartialEq, Eq, Structural, Copy, Clone)]
pub enum Base64Error {
    /// A byte outside the alphabet, with its offset and value.
    InvalidByte(usize, u8),
    /// The number of symbols is impossible.
    InvalidLength(usize),
    /// The last symbol has bits set that no encoding sets.
    InvalidLastSymbol(usize, u8),
    /// Padding is missing, short or misplaced.
    InvalidPadding,
}

/// The plain value of a decoding result.
pub open spec fn result_view(r: Result<Vec<u8>, Base64Error>) -> Result<Seq<u8>, Base64Error> {
    match r {
        Ok(v) => Ok(v@),
        Err(e) => Err(e),
    }
}

/// `r` holds the bytes `x`.
pub open spec fn decoded_as(r: Result<Vec<u8>, Base64Error>, x: Seq<u8>) -> bool {
    r matches Ok(v) && v@ == x
}

/// What `STANDARD.decode` of the `base64` crate gives for `input`.
pub uninterp spec fn base64_standard_decode(input: Seq<u8>) -> Result<Seq<u8>, Base64Error>;

/// `Engine::encode` of `base64::engine::general_purpose::STANDARD`: the
/// standard alphabet with `=` padding, as [`b64_encode`] states it.
#[verifier::external_body]
fn standard_encode(input: &[u8]) -> (s: String)
    ensures
        s@ == ascii_chars(b64_encode(input@)),
{
    ::base64::engine::general_purpose::STANDARD.encode(input)
}

/// `Engine::decode` of `base64::engine::general_purpose::STANDARD`, its
/// error converted variant by variant. Its result is named; the facts
/// claimed of it are that the engine accepts exactly the canonical
/// encodings (padding as [`b64_encode`] writes it, no stray bits in the last
/// symbol, nothing outside the alphabet), and that such an encoding decodes
/// to the bytes it encodes.
#[verifier::external_body]
fn standard_decode(input: &[u8]) -> (r: Result<Vec<u8>, Base64Error>)
    ensures
        result_view(r) == base64_standard_decode(input@),
        forall|x: Seq<u8>| #[trigger] b64_encode(x) == input@ ==> decoded_as(r, x),
        r matches Ok(v) ==> b64_encode(v@) == input@,
{
    match ::base64::engine::general_purpose::STANDARD.decode(input) {
        Ok(v) => Ok(v),
        Err(::base64::DecodeError::InvalidByte(i, b)) => Err(Base64Error::InvalidByte(i, b)),
        Err(::base64::DecodeError::InvalidLength(n)) => Err(Base64Error::InvalidLength(n)),
        Err(::base64::DecodeError::InvalidLastSymbol(i, b)) => Err(
            Base64Error::InvalidLastSymbol(i, b),
        ),
        Err(::base64::DecodeError::InvalidPadding) => Err(Base64Error::InvalidPadding),
    }
}

/// Standard base64.
pub struct Base64();

impl Base64 {
    /// The standard base64 text of `input`: four characters for every three
    /// bytes or part of them, whose bytes are [`b64_encode`] of the input
    /// (and so decode back to it with [`Base64::decode`]).
    pub fn encode(input: &[u8]) -> (s: String)
        ensures
            s@ == ascii_chars(b64_encode(input@)),
            vstd::utf8::encode_utf8(s@) == b64_encode(input@),
            s@.len() == 4 * ((input@.len() + 2) / 3),
    {
        proof {
            lemma_b64_encode_shape(input@);
            lemma_ascii_text_bytes(b64_encode(input@));
        }
        standard_encode(input)
    }

    /// The bytes that the standard base64 text `input` encodes, or why it
    /// does not decode.
    pub fn decode(input: &[u8]) -> (r: Result<Vec<u8>, Base64Error>)
        ensures
            result_view(r) == base64_standard_decode(input@),
            forall|x: Seq<u8>| #[trigger] b64_encode(x) == input@ ==> decoded_as(r, x),
            r matches Ok(v) ==> b64_encode(v@) == input@,
    {
        standard_decode(input)
    }
}

} // verus!
