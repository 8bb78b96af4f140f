//! A byte buffer that is written at its end and read from its front.

use vstd::prelude::*;
use crate::resp::{find_eol, parse_i64, is_eol, is_digit, all_digits, digits_value, lemma_find_eol_at,
    lemma_find_eol_none, lemma_digits_value_step, lemma_digits_value_mono};

verus! {

/// Readable bytes: `data[read_pos..]`.
pub struct Buffer {
    data: Vec<u8>,
    read_pos: usize,
}

impl View for Buffer {
    type V = Seq<u8>;

    closed spec fn view(&self) -> Seq<u8> {
        self.data@.subrange(self.read_pos as int, self.data@.len() as int)
    }
}

impl Buffer {
    #[verifier::type_invariant]
    spec fn read_pos_in_data(self) -> bool {
        self.read_pos <= self.data@.len()
    }

    /// An empty buffer.
    pub fn new() -> (r: Self)
        ensures
            r@ == Seq::<u8>::empty(),
    {
        let r = Buffer { data: Vec::new(), read_pos: 0 };
        assert(r@ =~= Seq::<u8>::empty());
        r
    }

    /// Number of readable bytes.
    pub fn size(&self) -> (r: usize)
        ensures
            r == self@.len(),
    {
        proof { use_type_invariant(self); }
        self.data.len() - self.read_pos
    }

    /// The readable byte at `i`.
    pub fn peek_at(&self, i: usize) -> (r: u8)
        requires
            i < self@.len(),
        ensures
            r == self@[i as int],
    {
        proof { use_type_invariant(self); }
        let n = self.data.len();
        assert(self.read_pos + i < n);
        self.data[self.read_pos + i]
    }

    /// Reads and removes the first byte.
    pub fn read_u8(&mut self) -> (r: u8)
        requires
            old(self)@.len() >= 1,
        ensures
            r == old(self)@[0],
            final(self)@ == old(self)@.drop_first(),
    {
        proof { use_type_invariant(&*self); }
        let len = self.data.len();
        assert(self.read_pos + 1 <= len);
        let b = self.data[self.read_pos];
        self.read_pos = self.read_pos + 1;
        assert(self@ =~= old(self)@.drop_first());
        b
    }

    /// Removes the first `n` bytes.
    pub fn advance(&mut self, n: usize)
        requires
            n <= old(self)@.len(),
        ensures
            final(self)@ == old(self)@.skip(n as int),
    {
        proof { use_type_invariant(&*self); }
        let len = self.data.len();
        assert(self.read_pos + n <= len);
        self.read_pos = self.read_pos + n;
        assert(self@ =~= old(self)@.skip(n as int));
    }

    /// Appends `s` after the readable bytes.
    pub fn write_slice(&mut self, s: &[u8])
        ensures
            final(self)@ == old(self)@ + s@,
    {
        proof { use_type_invariant(&*self); }
        let mut data: Vec<u8> = Vec::new();
        let mut i = self.read_pos;
        let n = self.data.len();
        while i < n
            invariant
                self.read_pos <= i <= n == self.data@.len(),
                data@ == self.data@.subrange(self.read_pos as int, i as int),
            decreases n - i,
        {
            data.push(self.data[i]);
            i = i + 1;
            assert(data@ =~= self.data@.subrange(self.read_pos as int, i as int));
        }
        let mut j: usize = 0;
        while j < s.len()
            invariant
                j <= s@.len(),
                data@ == old(self)@ + s@.subrange(0, j as int),
            decreases s.len() - j,
        {
            data.push(s[j]);
            j = j + 1;
            assert(data@ =~= old(self)@ + s@.subrange(0, j as int));
        }
        assert(s@.subrange(0, s@.len() as int) =~= s@);
        *self = Buffer { data, read_pos: 0 };
        assert(self@ =~= old(self)@ + s@);
    }

    /// Index of the first carriage return or line feed.
    pub fn find_eol(&self) -> (r: Option<usize>)
        ensures
            match r {
                Some(p) => find_eol(self@) == Some(p as nat) && p < self@.len(),
                None => find_eol(self@) is None,
            },
    {
        let n = self.size();
        let mut i: usize = 0;
        while i < n
            invariant
                i <= n == self@.len(),
                forall|j: int| 0 <= j < i ==> !is_eol(#[trigger] self@[j]),
            decreases n - i,
        {
            let b = self.peek_at(i);
            if b == 13u8 || b == 10u8 {
                proof { lemma_find_eol_at(self@, i as nat); }
                return Some(i);
            }
            i = i + 1;
        }
        proof { lemma_find_eol_none(self@); }
        None
    }

    /// A copy of the first `n` readable bytes.
    pub fn copy_prefix(&self, n: usize) -> (r: Vec<u8>)
        requires
            n <= self@.len(),
        ensures
            r@ == self@.take(n as int),
    {
        let mut r: Vec<u8> = Vec::with_capacity(n);
        let mut i: usize = 0;
        while i < n
            invariant
                i <= n <= self@.len(),
                r@ == self@.take(i as int),
            decreases n - i,
        {
            r.push(self.peek_at(i));
            i = i + 1;
            assert(r@ =~= self@.take(i as int));
        }
        r
    }

    /// What `str::parse::<i64>` makes of the first `n` readable bytes.
    pub fn parse_i64_prefix(&self, n: usize) -> (r: Option<i64>)
        requires
            n <= self@.len(),
        ensures
            r == parse_i64(self@.take(n as int)),
    {
        let ghost s = self@.take(n as int);
        if n == 0 {
            return None;
        }
        let b0 = self.peek_at(0);
        let neg = b0 == 45u8;
        let start: usize = if b0 == 45u8 || b0 == 43u8 { 1 } else { 0 };
        let ghost d = if start == 1 { s.drop_first() } else { s };
        assert(d =~= self@.subrange(start as int, n as int));
        if start == n {
            return None;
        }
        let mut acc: u128 = 0;
        let mut i: usize = start;
        while i < n
            invariant
                start <= i <= n <= self@.len(),
                s == self@.take(n as int),
                s.len() > 0,
                neg == (s[0] == 45u8),
                (start == 1) == (s[0] == 45u8 || s[0] == 43u8),
                d == (if s[0] == 45u8 || s[0] == 43u8 { s.drop_first() } else { s }),
                d == self@.subrange(start as int, n as int),
                all_digits(d.take(i - start)),
                acc == digits_value(d.take(i - start)),
                acc <= 9223372036854775808u128,
            decreases n - i,
        {
            let c = self.peek_at(i);
            assert(d[i - start] == c);
            if c < 48u8 || c > 57u8 {
                assert(!is_digit(d[i - start]));
                return None;
            }
            proof {
                lemma_digits_value_step(d, i - start);
                assert forall|j: int| 0 <= j < (i + 1 - start) implies is_digit(#[trigger] d.take(i + 1 - start)[j]) by {
                    if j < i - start {
                        assert(d.take(i + 1 - start)[j] == d.take(i - start)[j]);
                    }
                }
            }
            acc = acc * 10 + (c - 48u8) as u128;
            i = i + 1;
            if acc > 9223372036854775808u128 {
                proof {
                    if all_digits(d) {
                        lemma_digits_value_mono(d, i - start);
                    }
                }
                return None;
            }
        }
        assert(d.take(n - start) =~= d);
        if neg {
            if acc == 9223372036854775808u128 {
                Some(i64::MIN)
            } else {
                Some(-(acc as i64))
            }
        } else {
            if acc > 9223372036854775807u128 {
                None
            } else {
                Some(acc as i64)
            }
        }
    }
}

} // verus!
