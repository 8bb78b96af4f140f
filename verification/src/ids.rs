//! Numeric handles of connections and listeners.

use vstd::prelude::*;
use vstd::string::*;
use crate::resp::{dec, lemma_dec, all_digits, is_digit};
use crate::redis_commander::append_decimal;

verus! {

/// The characters of the decimal numeral of `n`.
pub open spec fn decimal_chars(n: nat) -> Seq<char> {
    dec(n).map_values(|b: u8| b as char)
}

fn push_decimal_digit(s: &mut String, b: u8)
    requires
        48 <= b <= 57,
    ensures
        final(s)@ == old(s)@ + seq![b as char],
{
    let digits = "0123456789";
    proof {
        reveal_strlit("0123456789");
        assert(digits@ =~= seq!['0', '1', '2', '3', '4', '5', '6', '7', '8', '9']);
    }
    let k = (b - 48) as usize;
    let d = digits.substring_ascii(k, k + 1);
    assert(d@ =~= seq![b as char]);
    s.append(d);
}

/// The decimal numeral of `n` as text.
fn usize_to_string(n: usize) -> (s: String)
    ensures
        s@ == decimal_chars(n as nat),
{
    let mut v: Vec<u8> = Vec::new();
    append_decimal(&mut v, n as u64);
    assert(v@ =~= dec(n as nat));
    proof {
        lemma_dec(n as nat);
    }
    let mut s = String::new();
    let mut i: usize = 0;
    while i < v.len()
        invariant
            i <= v@.len(),
            v@ == dec(n as nat),
            all_digits(v@),
            s@ == v@.take(i as int).map_values(|b: u8| b as char),
        decreases v.len() - i,
    {
        let b = v[i];
        assert(is_digit(v@[i as int]));
        push_decimal_digit(&mut s, b);
        i = i + 1;
        assert(s@ =~= v@.take(i as int).map_values(|b: u8| b as char));
    }
    assert(v@.take(v@.len() as int) =~= v@);
    s
}

/// Handle of a connection.
#[derive(Debug, PartialEq, Eq, Structural, Copy, Clone, Hash)]
pub struct ConnId {
    pub id: usize,
}

impl ConnId {
    /// The decimal numeral of the handle.
    pub fn to_string(&self) -> (s: String)
        ensures
            s@ == decimal_chars(self.id as nat),
    {
        usize_to_string(self.id)
    }
}

impl From<usize> for ConnId {
    fn from(raw: usize) -> (r: Self) {
        ConnId { id: raw }
    }
}

impl vstd::std_specs::convert::FromSpecImpl<usize> for ConnId {
    open spec fn obeys_from_spec() -> bool {
        true
    }

    open spec fn from_spec(raw: usize) -> Self {
        ConnId { id: raw }
    }
}

/// Handle of a listener.
#[derive(Debug, PartialEq, Eq, Structural, Copy, Clone, Hash)]
pub struct ListenerId {
    pub id: usize,
}

impl ListenerId {
    /// The decimal numeral of the handle.
    pub fn to_string(&self) -> (s: String)
        ensures
            s@ == decimal_chars(self.id as nat),
    {
        usize_to_string(self.id)
    }
}

impl From<usize> for ListenerId {
    fn from(raw: usize) -> (r: Self) {
        ListenerId { id: raw }
    }
}

impl vstd::std_specs::convert::FromSpecImpl<usize> for ListenerId {
    open spec fn obeys_from_spec() -> bool {
        true
    }

    open spec fn from_spec(raw: usize) -> Self {
        ListenerId { id: raw }
    }
}

/// Handle of a tcp listener.
#[derive(Debug, PartialEq, Eq, Structural, Copy, Clone, Hash)]
pub struct TcpListenerId {
    pub id: usize,
}

impl TcpListenerId {
    /// The decimal numeral of the handle.
    pub fn to_string(&self) -> (s: String)
        ensures
            s@ == decimal_chars(self.id as nat),
    {
        usize_to_string(self.id)
    }
}

impl From<usize> for TcpListenerId {
    fn from(raw: usize) -> (r: Self) {
        TcpListenerId { id: raw }
    }
}

impl vstd::std_specs::convert::FromSpecImpl<usize> for TcpListenerId {
    open spec fn obeys_from_spec() -> bool {
        true
    }

    open spec fn from_spec(raw: usize) -> Self {
        TcpListenerId { id: raw }
    }
}

} // verus!
