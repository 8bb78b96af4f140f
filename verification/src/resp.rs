//! The Redis serialization protocol as mathematics: what a byte stream
//! means as a sequence of replies, decimal numerals, and the facts about
//! them that the parser and the command encoder rely on.

use vstd::prelude::*;

verus! {

/// A reply as a mathematical value.
pub enum ReplyValue {
    Error(Seq<u8>),
    BulkString(Seq<u8>),
    SimpleString(Seq<u8>),
    Null,
    Integer(i64),
    Array(Seq<ReplyValue>),
}

/// The meaning of a stream that starts at a reply boundary: a reply and the
/// number of bytes it takes, a stream that stops inside a reply, or bytes
/// that are no reply at all.
pub enum ReplyParse {
    Done(ReplyValue, nat),
    NeedMore,
    Invalid,
}

/// The meaning of a stream that should hold a given number of replies.
pub enum ItemsParse {
    Done(Seq<ReplyValue>, nat),
    NeedMore,
    Invalid,
}

/// The meaning of a stream that holds a line ending in an integer.
pub enum IntLine {
    Done(i64, nat),
    NeedMore,
    Invalid,
}

/// Carriage return or line feed.
pub open spec fn is_eol(b: u8) -> bool {
    b == 13u8 || b == 10u8
}

/// Index of the first carriage return or line feed.
pub open spec fn find_eol(s: Seq<u8>) -> Option<nat>
    decreases s.len(),
{
    if s.len() == 0 {
        None
    } else if is_eol(s[0]) {
        Some(0nat)
    } else {
        match find_eol(s.drop_first()) {
            Some(p) => Some(p + 1),
            None => None,
        }
    }
}

/// Where the first line of `s` ends, once the two bytes of its line end
/// have arrived.
pub open spec fn line_end(s: Seq<u8>) -> Option<nat> {
    match find_eol(s) {
        Some(p) => if p + 2 <= s.len() { Some(p) } else { None },
        None => None,
    }
}

/// An ASCII decimal digit.
pub open spec fn is_digit(b: u8) -> bool {
    48u8 <= b <= 57u8
}

/// All bytes are ASCII digits.
pub open spec fn all_digits(d: Seq<u8>) -> bool {
    forall|i: int| 0 <= i < d.len() ==> is_digit(#[trigger] d[i])
}

/// The number that a string of decimal digits denotes.
pub open spec fn digits_value(d: Seq<u8>) -> nat
    decreases d.len(),
{
    if d.len() == 0 {
        0
    } else {
        digits_value(d.drop_last()) * 10 + (d.last() - 48) as nat
    }
}

/// What `str::parse::<i64>` makes of a string: an optional `+` or `-`, then
/// at least one decimal digit and nothing else, in the range of `i64`.
pub open spec fn parse_i64(s: Seq<u8>) -> Option<i64> {
    let neg = s.len() > 0 && s[0] == 45u8;
    let signed = s.len() > 0 && (s[0] == 45u8 || s[0] == 43u8);
    let d = if signed { s.drop_first() } else { s };
    if d.len() == 0 || !all_digits(d) {
        None
    } else {
        let v: int = if neg { -(digits_value(d) as int) } else { digits_value(d) as int };
        if i64::MIN <= v <= i64::MAX { Some(v as i64) } else { None }
    }
}

/// A line holding an integer, such as `42\r\n`.
pub open spec fn parse_int_line(s: Seq<u8>) -> IntLine {
    match line_end(s) {
        None => IntLine::NeedMore,
        Some(p) => match parse_i64(s.take(p as int)) {
            Some(n) => IntLine::Done(n, p + 2),
            None => IntLine::Invalid,
        },
    }
}

/// Flag bytes of the protocol: `+ - : $ *`.
pub open spec fn flag_simple() -> u8 { 43u8 }
pub open spec fn flag_error() -> u8 { 45u8 }
pub open spec fn flag_integer() -> u8 { 58u8 }
pub open spec fn flag_bulk() -> u8 { 36u8 }
pub open spec fn flag_array() -> u8 { 42u8 }

/// The body of a bulk string after its `$` flag.
#[verifier::opaque]
pub open spec fn parse_bulk_body(t: Seq<u8>) -> ReplyParse {
    match parse_int_line(t) {
        IntLine::NeedMore => ReplyParse::NeedMore,
        IntLine::Invalid => ReplyParse::Invalid,
        IntLine::Done(n, h) => if n == -1 {
            ReplyParse::Done(ReplyValue::Null, h)
        } else if n < -1 {
            ReplyParse::Invalid
        } else {
            let body = t.skip(h as int);
            if body.len() >= n + 2 {
                ReplyParse::Done(ReplyValue::BulkString(body.take(n as int)), (h + n + 2) as nat)
            } else {
                ReplyParse::NeedMore
            }
        },
    }
}

/// An array of the parsed items, after a header of `h` bytes.
pub open spec fn items_to_reply(ip: ItemsParse, h: nat) -> ReplyParse {
    match ip {
        ItemsParse::Done(items, k) => ReplyParse::Done(ReplyValue::Array(items), h + k),
        ItemsParse::NeedMore => ReplyParse::NeedMore,
        ItemsParse::Invalid => ReplyParse::Invalid,
    }
}

/// Adds a consumed prefix to the length of a parse.
pub open spec fn shift_parse(r: ReplyParse, k: nat) -> ReplyParse {
    match r {
        ReplyParse::Done(v, n) => ReplyParse::Done(v, n + k),
        ReplyParse::NeedMore => ReplyParse::NeedMore,
        ReplyParse::Invalid => ReplyParse::Invalid,
    }
}

/// The meaning of a stream that starts with one reply.
#[verifier::opaque]
pub open spec fn parse_reply(s: Seq<u8>) -> ReplyParse
    decreases s.len(), 2int, 0nat,
{
    if s.len() == 0 {
        ReplyParse::NeedMore
    } else {
        let f = s[0];
        let t = s.drop_first();
        if f == flag_simple() || f == flag_error() {
            match line_end(t) {
                None => ReplyParse::NeedMore,
                Some(p) => {
                    let text = t.take(p as int);
                    let v = if f == flag_simple() { ReplyValue::SimpleString(text) } else { ReplyValue::Error(text) };
                    ReplyParse::Done(v, p + 3)
                },
            }
        } else if f == flag_integer() {
            match parse_int_line(t) {
                IntLine::NeedMore => ReplyParse::NeedMore,
                IntLine::Invalid => ReplyParse::Invalid,
                IntLine::Done(n, h) => ReplyParse::Done(ReplyValue::Integer(n), h + 1),
            }
        } else if f == flag_bulk() {
            shift_parse(parse_bulk_body(t), 1)
        } else if f == flag_array() {
            shift_parse(parse_array_body(t), 1)
        } else {
            ReplyParse::Invalid
        }
    }
}

/// The body of an array after its `*` flag: a count, then that many
/// replies. A count of -1 is null and a count of 0 an empty bulk string.
#[verifier::opaque]
pub open spec fn parse_array_body(t: Seq<u8>) -> ReplyParse
    decreases t.len(), 1int, 0nat,
{
    match parse_int_line(t) {
        IntLine::NeedMore => ReplyParse::NeedMore,
        IntLine::Invalid => ReplyParse::Invalid,
        IntLine::Done(n, h) => if n == -1 {
            ReplyParse::Done(ReplyValue::Null, h)
        } else if n == 0 {
            ReplyParse::Done(ReplyValue::BulkString(Seq::empty()), h)
        } else if n < -1 {
            ReplyParse::Invalid
        } else if h <= t.len() {
            items_to_reply(parse_items(t.skip(h as int), n as nat), h)
        } else {
            ReplyParse::Invalid
        },
    }
}

/// The meaning of a stream that should hold `n` replies in a row.
#[verifier::opaque]
pub open spec fn parse_items(s: Seq<u8>, n: nat) -> ItemsParse
    decreases s.len(), 3int, n,
{
    if n == 0 {
        ItemsParse::Done(Seq::empty(), 0)
    } else {
        match parse_reply(s) {
            ReplyParse::NeedMore => ItemsParse::NeedMore,
            ReplyParse::Invalid => ItemsParse::Invalid,
            ReplyParse::Done(v, k) => if 0 < k <= s.len() {
                match parse_items(s.skip(k as int), (n - 1) as nat) {
                    ItemsParse::Done(vs, k2) => ItemsParse::Done(seq![v] + vs, k + k2),
                    ItemsParse::NeedMore => ItemsParse::NeedMore,
                    ItemsParse::Invalid => ItemsParse::Invalid,
                }
            } else {
                ItemsParse::Invalid
            },
        }
    }
}

/// All complete replies of a stream, the bytes after them, and whether the
/// stream went wrong after them.
pub struct RepliesSplit {
    pub values: Seq<ReplyValue>,
    pub rest: Seq<u8>,
    pub invalid: bool,
}

/// Splits a stream into its complete replies.
pub open spec fn parse_replies(s: Seq<u8>) -> RepliesSplit
    decreases s.len(),
{
    match parse_reply(s) {
        ReplyParse::Done(v, k) => if 0 < k <= s.len() {
            let r = parse_replies(s.skip(k as int));
            RepliesSplit { values: seq![v] + r.values, rest: r.rest, invalid: r.invalid }
        } else {
            RepliesSplit { values: Seq::empty(), rest: s, invalid: true }
        },
        ReplyParse::NeedMore => RepliesSplit { values: Seq::empty(), rest: s, invalid: false },
        ReplyParse::Invalid => RepliesSplit { values: Seq::empty(), rest: s, invalid: true },
    }
}

/// The decimal numeral of `n`, most significant digit first.
pub open spec fn dec(n: nat) -> Seq<u8>
    decreases n,
{
    if n < 10 {
        seq![(48 + n) as u8]
    } else {
        dec(n / 10) + seq![(48 + n % 10) as u8]
    }
}

/// Carriage return and line feed.
pub open spec fn crlf() -> Seq<u8> {
    seq![13u8, 10u8]
}

// ---------------------------------------------------------------------
// Facts about line ends.

/// The first line end is the first CR or LF.
pub proof fn lemma_find_eol_char(s: Seq<u8>)
    ensures
        match find_eol(s) {
            Some(p) => p < s.len() && is_eol(s[p as int]) && forall|j: int| 0 <= j < p ==> !is_eol(#[trigger] s[j]),
            None => forall|j: int| 0 <= j < s.len() ==> !is_eol(#[trigger] s[j]),
        },
    decreases s.len(),
{
    if s.len() > 0 && !is_eol(s[0]) {
        lemma_find_eol_char(s.drop_first());
        assert forall|j: int| 0 < j < s.len() implies s[j] == s.drop_first()[j - 1] by {}
    }
}

/// A position with a CR or LF and none before it is the first line end.
pub proof fn lemma_find_eol_at(s: Seq<u8>, p: nat)
    requires
        p < s.len(),
        is_eol(s[p as int]),
        forall|j: int| 0 <= j < p ==> !is_eol(#[trigger] s[j]),
    ensures
        find_eol(s) == Some(p),
    decreases p,
{
    if p > 0 {
        assert(!is_eol(s[0]));
        assert forall|j: int| 0 <= j < p - 1 implies !is_eol(#[trigger] s.drop_first()[j]) by {
            assert(s.drop_first()[j] == s[j + 1]);
        }
        lemma_find_eol_at(s.drop_first(), (p - 1) as nat);
    }
}

/// No CR or LF at all means no line end.
pub proof fn lemma_find_eol_none(s: Seq<u8>)
    requires
        forall|j: int| 0 <= j < s.len() ==> !is_eol(#[trigger] s[j]),
    ensures
        find_eol(s) is None,
    decreases s.len(),
{
    if s.len() > 0 {
        assert forall|j: int| 0 <= j < s.len() - 1 implies !is_eol(#[trigger] s.drop_first()[j]) by {
            assert(s.drop_first()[j] == s[j + 1]);
        }
        lemma_find_eol_none(s.drop_first());
    }
}

/// A line end that has arrived stays where it is when more bytes arrive.
pub proof fn lemma_find_eol_extend(s: Seq<u8>, t: Seq<u8>)
    ensures
        find_eol(s) matches Some(p) ==> find_eol(s + t) == Some(p),
        find_eol(s) is None ==> find_eol(s + t) == match find_eol(t) {
            Some(q) => Some(q + s.len()),
            None => None::<nat>,
        },
{
    lemma_find_eol_char(s);
    lemma_find_eol_char(t);
    match find_eol(s) {
        Some(p) => {
            assert forall|j: int| 0 <= j < p implies !is_eol(#[trigger] (s + t)[j]) by {
                assert((s + t)[j] == s[j]);
            }
            lemma_find_eol_at(s + t, p);
        },
        None => {
            match find_eol(t) {
                Some(q) => {
                    assert forall|j: int| 0 <= j < q + s.len() implies !is_eol(#[trigger] (s + t)[j]) by {
                        if j < s.len() {
                            assert((s + t)[j] == s[j]);
                        } else {
                            assert((s + t)[j] == t[j - s.len()]);
                        }
                    }
                    assert((s + t)[(q + s.len()) as int] == t[q as int]);
                    lemma_find_eol_at(s + t, q + s.len());
                },
                None => {
                    assert forall|j: int| 0 <= j < (s + t).len() implies !is_eol(#[trigger] (s + t)[j]) by {
                        if j < s.len() {
                            assert((s + t)[j] == s[j]);
                        } else {
                            assert((s + t)[j] == t[j - s.len()]);
                        }
                    }
                    lemma_find_eol_none(s + t);
                },
            }
        },
    }
}

/// A complete line stays complete, with the same text, in a longer stream.
pub proof fn lemma_line_end_extend(s: Seq<u8>, t: Seq<u8>)
    ensures
        line_end(s) matches Some(p) ==> line_end(s + t) == Some(p) && (s + t).take(p as int) == s.take(p as int),
{
    lemma_find_eol_extend(s, t);
    if let Some(p) = line_end(s) {
        assert((s + t).take(p as int) =~= s.take(p as int));
    }
}

/// A complete integer line keeps its meaning in a longer stream.
pub proof fn lemma_int_line_extend(s: Seq<u8>, t: Seq<u8>)
    ensures
        parse_int_line(s) matches IntLine::Done(n, h) ==> parse_int_line(s + t) == IntLine::Done(n, h),
        parse_int_line(s) is Invalid ==> parse_int_line(s + t) is Invalid,
{
    lemma_line_end_extend(s, t);
}

// ---------------------------------------------------------------------
// A parse that is decided stays decided when more bytes arrive.

/// A complete bulk string body keeps its meaning in a longer stream.
pub proof fn lemma_bulk_body_extend(s: Seq<u8>, t: Seq<u8>)
    ensures
        parse_bulk_body(s) matches ReplyParse::Done(v, k) ==> parse_bulk_body(s + t) == ReplyParse::Done(v, k),
        parse_bulk_body(s) is Invalid ==> parse_bulk_body(s + t) is Invalid,
{
    reveal_with_fuel(parse_reply, 1);
    reveal_with_fuel(parse_items, 1);
    reveal(parse_array_body);
    reveal(parse_bulk_body);
    lemma_int_line_extend(s, t);
    if let IntLine::Done(n, h) = parse_int_line(s) {
        if n >= 0 {
            let body = s.skip(h as int);
            if body.len() >= n + 2 {
                assert((s + t).skip(h as int).take(n as int) =~= body.take(n as int));
            }
        }
    }
}

/// A decided parse of one reply stays the same in a longer stream.
pub proof fn lemma_parse_reply_extend(s: Seq<u8>, t: Seq<u8>)
    ensures
        parse_reply(s) matches ReplyParse::Done(v, k) ==> parse_reply(s + t) == ReplyParse::Done(v, k),
        parse_reply(s) is Invalid ==> parse_reply(s + t) is Invalid,
    decreases s.len(), 2int, 0nat,
{
    reveal_with_fuel(parse_reply, 1);
    reveal_with_fuel(parse_items, 1);
    reveal(parse_array_body);
    reveal(parse_bulk_body);
    if s.len() > 0 {
        let f = s[0];
        let tt = s.drop_first();
        assert((s + t)[0] == f);
        assert((s + t).drop_first() =~= tt + t);
        if f == flag_simple() || f == flag_error() {
            lemma_line_end_extend(tt, t);
        } else if f == flag_integer() {
            lemma_int_line_extend(tt, t);
        } else if f == flag_bulk() {
            lemma_bulk_body_extend(tt, t);
        } else if f == flag_array() {
            lemma_array_body_extend(tt, t);
        }
    }
}

/// A decided array body stays the same in a longer stream.
pub proof fn lemma_array_body_extend(s: Seq<u8>, t: Seq<u8>)
    ensures
        parse_array_body(s) matches ReplyParse::Done(v, k) ==> parse_array_body(s + t) == ReplyParse::Done(v, k),
        parse_array_body(s) is Invalid ==> parse_array_body(s + t) is Invalid,
    decreases s.len(), 1int, 0nat,
{
    reveal_with_fuel(parse_reply, 1);
    reveal_with_fuel(parse_items, 1);
    reveal(parse_array_body);
    reveal(parse_bulk_body);
    lemma_int_line_extend(s, t);
    if let IntLine::Done(n, h) = parse_int_line(s) {
        if n >= 1 && h <= s.len() {
            assert((s + t).skip(h as int) =~= s.skip(h as int) + t);
            lemma_parse_items_extend(s.skip(h as int), t, n as nat);
        }
    }
}

/// A decided parse of several replies stays the same in a longer stream.
pub proof fn lemma_parse_items_extend(s: Seq<u8>, t: Seq<u8>, n: nat)
    ensures
        parse_items(s, n) matches ItemsParse::Done(vs, k) ==> parse_items(s + t, n) == ItemsParse::Done(vs, k),
        parse_items(s, n) is Invalid ==> parse_items(s + t, n) is Invalid,
    decreases s.len(), 3int, n,
{
    reveal_with_fuel(parse_reply, 1);
    reveal_with_fuel(parse_items, 1);
    reveal(parse_array_body);
    reveal(parse_bulk_body);
    if n > 0 {
        lemma_parse_reply_extend(s, t);
        lemma_parse_reply_len(s);
        if let ReplyParse::Done(v, k) = parse_reply(s) {
            if 0 < k <= s.len() {
                assert((s + t).skip(k as int) =~= s.skip(k as int) + t);
                lemma_parse_items_extend(s.skip(k as int), t, (n - 1) as nat);
            }
        }
    }
}

/// The length that a decided parse reports is within the stream.
pub proof fn lemma_parse_reply_len(s: Seq<u8>)
    ensures
        parse_reply(s) matches ReplyParse::Done(v, k) ==> 0 < k <= s.len(),
    decreases s.len(), 2int, 0nat,
{
    reveal_with_fuel(parse_reply, 1);
    reveal_with_fuel(parse_items, 1);
    reveal(parse_array_body);
    reveal(parse_bulk_body);
    if s.len() > 0 {
        let f = s[0];
        let tt = s.drop_first();
        if f == flag_array() {
            lemma_array_body_len(tt);
        }
    }
}

/// The length that a decided array body reports is within the stream.
pub proof fn lemma_array_body_len(s: Seq<u8>)
    ensures
        parse_array_body(s) matches ReplyParse::Done(v, k) ==> 0 < k <= s.len(),
    decreases s.len(), 1int, 0nat,
{
    reveal_with_fuel(parse_reply, 1);
    reveal_with_fuel(parse_items, 1);
    reveal(parse_array_body);
    reveal(parse_bulk_body);
    if let IntLine::Done(n, h) = parse_int_line(s) {
        if n >= 1 && h <= s.len() {
            lemma_parse_items_len(s.skip(h as int), n as nat);
        }
    }
}

/// The length that a decided parse of several replies reports is within
/// the stream.
pub proof fn lemma_parse_items_len(s: Seq<u8>, n: nat)
    ensures
        parse_items(s, n) matches ItemsParse::Done(vs, k) ==> k <= s.len() && vs.len() == n,
    decreases s.len(), 3int, n,
{
    reveal_with_fuel(parse_reply, 1);
    reveal_with_fuel(parse_items, 1);
    reveal(parse_array_body);
    reveal(parse_bulk_body);
    if n > 0 {
        if let ReplyParse::Done(v, k) = parse_reply(s) {
            if 0 < k <= s.len() {
                lemma_parse_items_len(s.skip(k as int), (n - 1) as nat);
            }
        }
    }
}

// ---------------------------------------------------------------------
// A decided parse only looks at the bytes that it reports.

/// The first line end is found in any prefix that contains it.
pub proof fn lemma_find_eol_take(s: Seq<u8>, m: int)
    requires
        find_eol(s) matches Some(p) && p < m <= s.len(),
    ensures
        find_eol(s.take(m)) == find_eol(s),
{
    lemma_find_eol_char(s);
    let p = find_eol(s).unwrap();
    assert forall|j: int| 0 <= j < p implies !is_eol(#[trigger] s.take(m)[j]) by {
        assert(s.take(m)[j] == s[j]);
    }
    lemma_find_eol_at(s.take(m), p);
}

/// A complete integer line keeps its meaning in any prefix holding it.
pub proof fn lemma_int_line_take(s: Seq<u8>, m: int)
    requires
        parse_int_line(s) matches IntLine::Done(n, h) && h <= m <= s.len(),
    ensures
        parse_int_line(s.take(m)) == parse_int_line(s),
{
    let p = line_end(s).unwrap();
    lemma_find_eol_take(s, m);
    assert(s.take(m).take(p as int) =~= s.take(p as int));
}

/// A decided parse of one reply holds for its own bytes alone.
pub proof fn lemma_parse_reply_take(s: Seq<u8>)
    ensures
        parse_reply(s) matches ReplyParse::Done(v, k) ==> parse_reply(s.take(k as int)) == parse_reply(s),
    decreases s.len(), 2int, 0nat,
{
    reveal_with_fuel(parse_reply, 1);
    reveal_with_fuel(parse_items, 1);
    reveal(parse_array_body);
    reveal(parse_bulk_body);
    lemma_parse_reply_len(s);
    if let ReplyParse::Done(v, k) = parse_reply(s) {
        let f = s[0];
        let tt = s.drop_first();
        let st = s.take(k as int);
        assert(st[0] == f);
        assert(st.drop_first() =~= tt.take(k - 1));
        if f == flag_simple() || f == flag_error() {
            let p = line_end(tt).unwrap();
            lemma_find_eol_take(tt, k - 1);
            assert(tt.take(k - 1).take(p as int) =~= tt.take(p as int));
        } else if f == flag_integer() {
            lemma_int_line_take(tt, k - 1);
        } else if f == flag_bulk() {
            if let IntLine::Done(n, h) = parse_int_line(tt) {
                lemma_int_line_take(tt, k - 1);
                if n >= 0 {
                    assert(tt.take(k - 1).skip(h as int).take(n as int) =~= tt.skip(h as int).take(n as int));
                }
            }
        } else if f == flag_array() {
            lemma_array_body_take(tt);
        }
    }
}

/// A decided array body holds for its own bytes alone.
pub proof fn lemma_array_body_take(s: Seq<u8>)
    ensures
        parse_array_body(s) matches ReplyParse::Done(v, k) ==> parse_array_body(s.take(k as int)) == parse_array_body(s),
    decreases s.len(), 1int, 0nat,
{
    reveal_with_fuel(parse_reply, 1);
    reveal_with_fuel(parse_items, 1);
    reveal(parse_array_body);
    reveal(parse_bulk_body);
    lemma_array_body_len(s);
    if let ReplyParse::Done(v, k) = parse_array_body(s) {
        if let IntLine::Done(n, h) = parse_int_line(s) {
            lemma_int_line_take(s, k as int);
            if n >= 1 && h <= s.len() {
                let rest = s.skip(h as int);
                lemma_parse_items_take(rest, n as nat);
                let kk = (k - h) as int;
                assert(s.take(k as int).skip(h as int) =~= rest.take(kk));
            }
        }
    }
}

/// A decided parse of several replies holds for its own bytes alone.
pub proof fn lemma_parse_items_take(s: Seq<u8>, n: nat)
    ensures
        parse_items(s, n) matches ItemsParse::Done(vs, k) ==> parse_items(s.take(k as int), n) == parse_items(s, n),
    decreases s.len(), 3int, n,
{
    reveal_with_fuel(parse_reply, 1);
    reveal_with_fuel(parse_items, 1);
    reveal(parse_array_body);
    reveal(parse_bulk_body);
    lemma_parse_items_len(s, n);
    if n > 0 {
        if let ItemsParse::Done(vs, k) = parse_items(s, n) {
            let (v, k1) = match parse_reply(s) {
                ReplyParse::Done(v, k1) => (v, k1),
                _ => (ReplyValue::Null, 0nat),
            };
            let s1 = s.skip(k1 as int);
            lemma_parse_reply_take(s);
            lemma_parse_items_len(s1, (n - 1) as nat);
            lemma_parse_items_take(s1, (n - 1) as nat);
            let st = s.take(k as int);
            let k2 = (k - k1) as int;
            assert(st =~= s.take(k1 as int) + s1.take(k2));
            lemma_parse_reply_extend(s.take(k1 as int), s1.take(k2));
            assert(st.skip(k1 as int) =~= s1.take(k2));
        }
    }
}

// ---------------------------------------------------------------------
// Replies in a row.

/// The concatenation of a sequence of byte strings.
pub open spec fn concat_all(fs: Seq<Seq<u8>>) -> Seq<u8>
    decreases fs.len(),
{
    if fs.len() == 0 {
        Seq::empty()
    } else {
        fs[0] + concat_all(fs.drop_first())
    }
}

/// Puts parsed replies in front of a parse of more replies.
pub open spec fn prepend_items(vals: Seq<ReplyValue>, len: nat, ip: ItemsParse) -> ItemsParse {
    match ip {
        ItemsParse::Done(vs, k) => ItemsParse::Done(vals + vs, len + k),
        ItemsParse::NeedMore => ItemsParse::NeedMore,
        ItemsParse::Invalid => ItemsParse::Invalid,
    }
}

/// Each of `items` is the encoding of the reply at the same index.
pub open spec fn items_encode(items: Seq<Seq<u8>>, vals: Seq<ReplyValue>) -> bool {
    &&& items.len() == vals.len()
    &&& forall|i: int| 0 <= i < items.len() ==>
        parse_reply(#[trigger] items[i]) == ReplyParse::Done(vals[i], items[i].len())
}

/// Parsing `n` replies after `k` complete ones: the `k` replies followed by
/// `n - k` replies parsed from what comes after them.
pub proof fn lemma_items_concat(items: Seq<Seq<u8>>, vals: Seq<ReplyValue>, y: Seq<u8>, n: nat)
    requires
        items_encode(items, vals),
        items.len() <= n,
    ensures
        parse_items(concat_all(items) + y, n)
            == prepend_items(vals, concat_all(items).len(), parse_items(y, (n - items.len()) as nat)),
    decreases items.len(),
{
    reveal_with_fuel(parse_reply, 1);
    reveal_with_fuel(parse_items, 1);
    reveal(parse_array_body);
    reveal(parse_bulk_body);
    if items.len() == 0 {
        assert(concat_all(items) + y =~= y);
        match parse_items(y, n) {
            ItemsParse::Done(vs, k) => { assert(vals + vs =~= vs); },
            _ => {},
        }
    } else {
        let e = items[0];
        let rest = items.drop_first();
        let z = concat_all(rest) + y;
        assert(items_encode(rest, vals.drop_first())) by {
            assert forall|i: int| 0 <= i < rest.len() implies
                parse_reply(#[trigger] rest[i]) == ReplyParse::Done(vals.drop_first()[i], rest[i].len()) by {
                assert(rest[i] == items[i + 1]);
            }
        }
        lemma_items_concat(rest, vals.drop_first(), y, (n - 1) as nat);
        assert(parse_reply(e) == ReplyParse::Done(vals[0], e.len()));
        lemma_parse_reply_extend(e, z);
        lemma_parse_reply_len(e);
        assert(concat_all(items) + y =~= e + z);
        assert((e + z).skip(e.len() as int) =~= z);
        assert((n - 1 - rest.len()) as nat == (n - items.len()) as nat);
        match parse_items(y, (n - items.len()) as nat) {
            ItemsParse::Done(vs, k) => {
                assert(seq![vals[0]] + (vals.drop_first() + vs) =~= vals + vs);
            },
            _ => {},
        }
    }
}

/// Appending one more encoded reply keeps the items encoded.
pub proof fn lemma_items_push(items: Seq<Seq<u8>>, vals: Seq<ReplyValue>, e: Seq<u8>, v: ReplyValue)
    requires
        items_encode(items, vals),
        parse_reply(e) == ReplyParse::Done(v, e.len()),
    ensures
        items_encode(items.push(e), vals.push(v)),
        concat_all(items.push(e)) == concat_all(items) + e,
    decreases items.len(),
{
    assert forall|i: int| 0 <= i < items.push(e).len() implies
        parse_reply(#[trigger] items.push(e)[i]) == ReplyParse::Done(vals.push(v)[i], items.push(e)[i].len()) by {
        if i < items.len() {
            assert(items.push(e)[i] == items[i]);
        }
    }
    if items.len() == 0 {
        assert(concat_all(items.push(e)) =~= e + concat_all(items.push(e).drop_first()));
        assert(items.push(e).drop_first() =~= Seq::<Seq<u8>>::empty());
        assert(concat_all(items) + e =~= e);
        assert(e + Seq::<u8>::empty() =~= e);
    } else {
        assert(items_encode(items.drop_first(), vals.drop_first())) by {
            assert forall|i: int| 0 <= i < items.drop_first().len() implies
                parse_reply(#[trigger] items.drop_first()[i]) == ReplyParse::Done(vals.drop_first()[i], items.drop_first()[i].len()) by {
                assert(items.drop_first()[i] == items[i + 1]);
            }
        }
        lemma_items_push(items.drop_first(), vals.drop_first(), e, v);
        assert(items.push(e).drop_first() =~= items.drop_first().push(e));
        assert(items.push(e)[0] == items[0]);
        assert(concat_all(items) + e =~= items[0] + (concat_all(items.drop_first()) + e));
    }
}

// ---------------------------------------------------------------------
// One step of the parse, for the incremental builders.

/// An empty stream holds no reply yet.
pub proof fn lemma_reply_empty()
    ensures
        parse_reply(Seq::empty()) is NeedMore,
{
    reveal_with_fuel(parse_reply, 1);
    reveal_with_fuel(parse_items, 1);
    reveal(parse_array_body);
    reveal(parse_bulk_body);
}

/// After a flag byte that is no flag, the stream is no reply.
pub proof fn lemma_reply_bad_flag(f: u8, b: Seq<u8>)
    requires
        f != 43u8 && f != 45u8 && f != 58u8 && f != 36u8 && f != 42u8,
    ensures
        parse_reply(seq![f] + b) is Invalid,
{
    reveal_with_fuel(parse_reply, 1);
    reveal_with_fuel(parse_items, 1);
    reveal(parse_array_body);
    reveal(parse_bulk_body);
}

/// A simple string or an error: the first line after the flag.
pub proof fn lemma_reply_line(f: u8, b: Seq<u8>)
    requires
        f == 43u8 || f == 45u8,
    ensures
        parse_reply(seq![f] + b) == match line_end(b) {
            Some(p) => ReplyParse::Done(
                if f == 43u8 { ReplyValue::SimpleString(b.take(p as int)) } else { ReplyValue::Error(b.take(p as int)) },
                p + 3),
            None => ReplyParse::NeedMore,
        },
{
    reveal_with_fuel(parse_reply, 1);
    reveal_with_fuel(parse_items, 1);
    reveal(parse_array_body);
    reveal(parse_bulk_body);
    assert((seq![f] + b).drop_first() =~= b);
}

/// An integer: the first line after the flag.
pub proof fn lemma_reply_integer(b: Seq<u8>)
    ensures
        parse_reply(seq![58u8] + b) == match parse_int_line(b) {
            IntLine::Done(n, h) => ReplyParse::Done(ReplyValue::Integer(n), h + 1),
            IntLine::NeedMore => ReplyParse::NeedMore,
            IntLine::Invalid => ReplyParse::Invalid,
        },
{
    reveal_with_fuel(parse_reply, 1);
    reveal_with_fuel(parse_items, 1);
    reveal(parse_array_body);
    reveal(parse_bulk_body);
    assert((seq![58u8] + b).drop_first() =~= b);
}

/// A bulk string: its body after the flag.
pub proof fn lemma_reply_bulk(b: Seq<u8>)
    ensures
        parse_reply(seq![36u8] + b) == shift_parse(parse_bulk_body(b), 1),
{
    reveal_with_fuel(parse_reply, 1);
    reveal_with_fuel(parse_items, 1);
    reveal(parse_array_body);
    reveal(parse_bulk_body);
    assert((seq![36u8] + b).drop_first() =~= b);
}

/// An array: its body after the flag.
pub proof fn lemma_reply_array(b: Seq<u8>)
    ensures
        parse_reply(seq![42u8] + b) == shift_parse(parse_array_body(b), 1),
{
    reveal_with_fuel(parse_reply, 1);
    reveal_with_fuel(parse_items, 1);
    reveal(parse_array_body);
    reveal(parse_bulk_body);
    assert((seq![42u8] + b).drop_first() =~= b);
}

/// A bulk string whose length line is not complete, not a number, or null.
pub proof fn lemma_bulk_size(s: Seq<u8>)
    ensures
        parse_int_line(s) is NeedMore ==> parse_bulk_body(s) is NeedMore,
        parse_int_line(s) is Invalid ==> parse_bulk_body(s) is Invalid,
        parse_int_line(s) matches IntLine::Done(n, h) ==> (
            (n == -1 ==> parse_bulk_body(s) == ReplyParse::Done(ReplyValue::Null, h))
            && (n < -1 ==> parse_bulk_body(s) is Invalid)),
{
    reveal_with_fuel(parse_reply, 1);
    reveal_with_fuel(parse_items, 1);
    reveal(parse_array_body);
    reveal(parse_bulk_body);
}

/// A bulk string after its complete length line `hd`.
pub proof fn lemma_bulk_data(hd: Seq<u8>, bb: Seq<u8>, n: i64)
    requires
        parse_int_line(hd) == IntLine::Done(n, hd.len()),
        n >= 0,
    ensures
        parse_bulk_body(hd + bb) == if bb.len() >= n + 2 {
            ReplyParse::Done(ReplyValue::BulkString(bb.take(n as int)), (hd.len() + n + 2) as nat)
        } else {
            ReplyParse::NeedMore
        },
{
    reveal_with_fuel(parse_reply, 1);
    reveal_with_fuel(parse_items, 1);
    reveal(parse_array_body);
    reveal(parse_bulk_body);
    lemma_int_line_extend(hd, bb);
    assert((hd + bb).skip(hd.len() as int) =~= bb);
}

/// An array whose count line is not complete, not a number, null or zero.
pub proof fn lemma_array_size(s: Seq<u8>)
    ensures
        parse_int_line(s) is NeedMore ==> parse_array_body(s) is NeedMore,
        parse_int_line(s) is Invalid ==> parse_array_body(s) is Invalid,
        parse_int_line(s) matches IntLine::Done(n, h) ==> (
            (n == -1 ==> parse_array_body(s) == ReplyParse::Done(ReplyValue::Null, h))
            && (n == 0 ==> parse_array_body(s) == ReplyParse::Done(ReplyValue::BulkString(Seq::empty()), h))
            && (n < -1 ==> parse_array_body(s) is Invalid)),
{
    reveal_with_fuel(parse_reply, 1);
    reveal_with_fuel(parse_items, 1);
    reveal(parse_array_body);
    reveal(parse_bulk_body);
}

/// An array after its complete count line `hd`: that many replies.
pub proof fn lemma_array_items(hd: Seq<u8>, rest: Seq<u8>, n: i64)
    requires
        parse_int_line(hd) == IntLine::Done(n, hd.len()),
        n >= 1,
    ensures
        parse_array_body(hd + rest) == items_to_reply(parse_items(rest, n as nat), hd.len()),
{
    reveal_with_fuel(parse_reply, 1);
    reveal_with_fuel(parse_items, 1);
    reveal(parse_array_body);
    reveal(parse_bulk_body);
    lemma_int_line_extend(hd, rest);
    assert((hd + rest).skip(hd.len() as int) =~= rest);
}

/// Parsing at least one more reply: the first reply decides.
pub proof fn lemma_items_step(s: Seq<u8>, m: nat)
    requires
        m >= 1,
    ensures
        parse_reply(s) is NeedMore ==> parse_items(s, m) is NeedMore,
        parse_reply(s) is Invalid ==> parse_items(s, m) is Invalid,
        m == 1 ==> (parse_reply(s) matches ReplyParse::Done(v, k) ==> parse_items(s, m) == ItemsParse::Done(seq![v], k)),
{
    reveal_with_fuel(parse_items, 2);
    reveal_with_fuel(parse_reply, 1);
    reveal(parse_array_body);
    reveal(parse_bulk_body);
    lemma_parse_reply_len(s);
    if let ReplyParse::Done(v, k) = parse_reply(s) {
        if m == 1 {
            assert(parse_items(s.skip(k as int), 0) == ItemsParse::Done(Seq::empty(), 0));
            assert(seq![v] + Seq::<ReplyValue>::empty() =~= seq![v]);
        }
    }
}

/// The replies of a stream: the first one, then the replies after it.
pub proof fn lemma_replies_step(s: Seq<u8>)
    ensures
        parse_reply(s) is NeedMore ==> parse_replies(s) == (RepliesSplit { values: Seq::empty(), rest: s, invalid: false }),
        parse_reply(s) is Invalid ==> parse_replies(s).invalid && parse_replies(s).values.len() == 0,
        parse_reply(s) matches ReplyParse::Done(v, k) ==> ({
            let r = parse_replies(s.skip(k as int));
            parse_replies(s) == (RepliesSplit { values: seq![v] + r.values, rest: r.rest, invalid: r.invalid })
        }),
{
    lemma_parse_reply_len(s);
}

/// Splitting a stream into replies and then more input gives the replies of
/// the stream followed by those of its unsplit rest joined with the input.
pub proof fn lemma_replies_append(s: Seq<u8>, t: Seq<u8>)
    requires
        !parse_replies(s).invalid,
    ensures
        ({
            let a = parse_replies(s);
            let b = parse_replies(a.rest + t);
            parse_replies(s + t) == (RepliesSplit { values: a.values + b.values, rest: b.rest, invalid: b.invalid })
        }),
    decreases s.len(),
{
    lemma_parse_reply_len(s);
    lemma_parse_reply_extend(s, t);
    let a = parse_replies(s);
    let b = parse_replies(a.rest + t);
    match parse_reply(s) {
        ReplyParse::Done(v, k) => {
            let s2 = s.skip(k as int);
            assert((s + t).skip(k as int) =~= s2 + t);
            lemma_replies_append(s2, t);
            lemma_parse_reply_len(s + t);
            let r = parse_replies(s2);
            assert(seq![v] + r.values + b.values =~= seq![v] + (r.values + b.values));
        },
        _ => {
            assert(a.values + b.values =~= b.values);
        },
    }
}

// ---------------------------------------------------------------------
// Decimal numerals.

/// Digits only, and their value is the number.
pub proof fn lemma_dec(n: nat)
    ensures
        dec(n).len() > 0,
        all_digits(dec(n)),
        digits_value(dec(n)) == n,
    decreases n,
{
    if n >= 10 {
        lemma_dec(n / 10);
        let d = dec(n);
        assert(d.drop_last() =~= dec(n / 10));
        assert(d.last() == (48 + n % 10) as u8);
        assert(n == (n / 10) * 10 + n % 10);
        assert(digits_value(d) == digits_value(d.drop_last()) * 10 + (d.last() - 48) as nat);
    } else {
        let d = dec(n);
        assert(d.drop_last() =~= Seq::<u8>::empty());
        assert(d.last() == (48 + n) as u8);
        assert(digits_value(d) == digits_value(d.drop_last()) * 10 + (d.last() - 48) as nat);
        assert forall|i: int| 0 <= i < d.len() implies is_digit(#[trigger] d[i]) by {
            if i < d.len() - 1 {
                assert(d[i] == dec(n / 10)[i]);
            }
        }
    }
}

/// A numeral holds no line end.
pub proof fn lemma_dec_no_eol(n: nat)
    ensures
        forall|j: int| 0 <= j < dec(n).len() ==> !is_eol(#[trigger] dec(n)[j]),
{
    lemma_dec(n);
    assert forall|j: int| 0 <= j < dec(n).len() implies !is_eol(#[trigger] dec(n)[j]) by {
        assert(is_digit(dec(n)[j]));
    }
}

/// `str::parse::<i64>` gives back the number of a numeral.
pub proof fn lemma_parse_dec(n: nat)
    requires
        n <= i64::MAX,
    ensures
        parse_i64(dec(n)) == Some(n as i64),
{
    lemma_dec(n);
    let d = dec(n);
    assert(is_digit(d[0]));
}

/// The line `dec(n) ++ CRLF ++ rest` holds the integer `n`.
pub proof fn lemma_int_line_dec(n: nat, rest: Seq<u8>)
    requires
        n <= i64::MAX,
    ensures
        parse_int_line(dec(n) + crlf() + rest) == IntLine::Done(n as i64, dec(n).len() + 2),
{
    let s = dec(n) + crlf() + rest;
    lemma_dec_no_eol(n);
    assert forall|j: int| 0 <= j < dec(n).len() implies !is_eol(#[trigger] s[j]) by {
        assert(s[j] == dec(n)[j]);
    }
    assert(s[dec(n).len() as int] == 13u8);
    lemma_find_eol_at(s, dec(n).len());
    assert(s.take(dec(n).len() as int) =~= dec(n));
    lemma_parse_dec(n);
}

/// Digits read left to right: the value of a longer prefix.
pub proof fn lemma_digits_value_step(d: Seq<u8>, i: int)
    requires
        0 <= i < d.len(),
    ensures
        digits_value(d.take(i + 1)) == digits_value(d.take(i)) * 10 + (d[i] - 48) as nat,
{
    assert(d.take(i + 1).drop_last() =~= d.take(i));
}

/// A longer string of digits has a value at least as large.
pub proof fn lemma_digits_value_mono(d: Seq<u8>, i: int)
    requires
        0 <= i <= d.len(),
        all_digits(d),
    ensures
        digits_value(d.take(i)) <= digits_value(d),
    decreases d.len() - i,
{
    if i < d.len() {
        lemma_digits_value_step(d, i);
        assert(is_digit(d[i]));
        lemma_digits_value_mono(d, i + 1);
    } else {
        assert(d.take(i) =~= d);
    }
}

// ---------------------------------------------------------------------
// Commands: an array of bulk strings.

/// One part of a command: `$len\r\nbytes\r\n`.
pub open spec fn encode_part(p: Seq<u8>) -> Seq<u8> {
    seq![36u8] + dec(p.len()) + crlf() + p + crlf()
}

/// The parts of a command, one after the other.
pub open spec fn encode_parts(ps: Seq<Seq<u8>>) -> Seq<u8>
    decreases ps.len(),
{
    if ps.len() == 0 {
        Seq::empty()
    } else {
        encode_part(ps[0]) + encode_parts(ps.drop_first())
    }
}

/// A command: `*count\r\n` and its parts.
pub open spec fn encode_command(ps: Seq<Seq<u8>>) -> Seq<u8> {
    seq![42u8] + dec(ps.len()) + crlf() + encode_parts(ps)
}

/// Several commands, one after the other.
pub open spec fn encode_commands(cs: Seq<Seq<Seq<u8>>>) -> Seq<u8>
    decreases cs.len(),
{
    if cs.len() == 0 {
        Seq::empty()
    } else {
        encode_commands(cs.drop_last()) + encode_command(cs.last())
    }
}

/// The parts of a command as bulk string replies.
pub open spec fn bulk_values(ps: Seq<Seq<u8>>) -> Seq<ReplyValue> {
    Seq::new(ps.len(), |i: int| ReplyValue::BulkString(ps[i]))
}

/// The parts that a reply parser can read back: each no longer than an
/// `i64` can count.
pub open spec fn parts_fit(ps: Seq<Seq<u8>>) -> bool {
    &&& ps.len() <= i64::MAX
    &&& forall|i: int| 0 <= i < ps.len() ==> (#[trigger] ps[i]).len() <= i64::MAX
}

/// Encoding one more part extends the encoding of the parts before it.
pub proof fn lemma_encode_parts_push(ps: Seq<Seq<u8>>, p: Seq<u8>)
    ensures
        encode_parts(ps.push(p)) == encode_parts(ps) + encode_part(p),
    decreases ps.len(),
{
    if ps.len() == 0 {
        assert(ps.push(p).drop_first() =~= Seq::<Seq<u8>>::empty());
        assert(ps.push(p)[0] == p);
        assert(encode_parts(ps.push(p).drop_first()) == Seq::<u8>::empty());
        assert(encode_parts(ps.push(p)) =~= encode_part(p) + Seq::<u8>::empty());
        assert(encode_parts(ps) + encode_part(p) =~= encode_part(p));
    } else {
        lemma_encode_parts_push(ps.drop_first(), p);
        assert(ps.push(p).drop_first() =~= ps.drop_first().push(p));
        assert(ps.push(p)[0] == ps[0]);
        assert(encode_part(ps[0]) + (encode_parts(ps.drop_first()) + encode_part(p))
            =~= encode_part(ps[0]) + encode_parts(ps.drop_first()) + encode_part(p));
    }
}

/// A bulk string reads back as the bytes it holds.
pub proof fn lemma_parse_encoded_part(p: Seq<u8>)
    requires
        p.len() <= i64::MAX,
    ensures
        parse_reply(encode_part(p)) == ReplyParse::Done(ReplyValue::BulkString(p), encode_part(p).len()),
{
    let n = p.len();
    let hd = dec(n) + crlf();
    let tail = p + crlf();
    lemma_int_line_dec(n, Seq::empty());
    assert(hd + Seq::<u8>::empty() =~= hd);
    lemma_bulk_data(hd, tail, n as i64);
    assert(tail.take(n as int) =~= p);
    lemma_reply_bulk(hd + tail);
    assert(encode_part(p) =~= seq![36u8] + (hd + tail));
}

/// The parts of a command read back as the same number of bulk strings.
pub proof fn lemma_parse_encoded_parts(ps: Seq<Seq<u8>>, rest: Seq<u8>)
    requires
        parts_fit(ps),
    ensures
        parse_items(encode_parts(ps) + rest, ps.len())
            == prepend_items(bulk_values(ps), encode_parts(ps).len(), parse_items(rest, 0)),
    decreases ps.len(),
{
    let items = Seq::new(ps.len(), |i: int| encode_part(ps[i]));
    assert(items_encode(items, bulk_values(ps))) by {
        assert forall|i: int| 0 <= i < items.len() implies
            parse_reply(#[trigger] items[i]) == ReplyParse::Done(bulk_values(ps)[i], items[i].len()) by {
            lemma_parse_encoded_part(ps[i]);
        }
    }
    lemma_concat_encoded(ps);
    lemma_items_concat(items, bulk_values(ps), rest, ps.len());
}

/// The encodings of the parts, concatenated, are the encoding of the parts.
pub proof fn lemma_concat_encoded(ps: Seq<Seq<u8>>)
    ensures
        concat_all(Seq::new(ps.len(), |i: int| encode_part(ps[i]))) == encode_parts(ps),
    decreases ps.len(),
{
    let items = Seq::new(ps.len(), |i: int| encode_part(ps[i]));
    if ps.len() > 0 {
        lemma_concat_encoded(ps.drop_first());
        assert(items.drop_first() =~= Seq::new(ps.drop_first().len(), |i: int| encode_part(ps.drop_first()[i])));
    }
}

/// Parsing no reply at all takes no byte.
pub proof fn lemma_items_zero(s: Seq<u8>)
    ensures
        parse_items(s, 0) == ItemsParse::Done(Seq::empty(), 0),
{
    reveal_with_fuel(parse_items, 1);
}

/// Law: the reply parser reads an encoded command back as one array of bulk
/// strings that are its parts, and nothing else.
pub proof fn law_command_roundtrip(ps: Seq<Seq<u8>>)
    requires
        ps.len() >= 1,
        parts_fit(ps),
    ensures
        parse_replies(encode_command(ps)) == (RepliesSplit {
            values: seq![ReplyValue::Array(bulk_values(ps))],
            rest: Seq::empty(),
            invalid: false,
        }),
{
    let k = ps.len();
    let hd = dec(k) + crlf();
    let body = encode_parts(ps);
    lemma_int_line_dec(k, Seq::empty());
    assert(hd + Seq::<u8>::empty() =~= hd);
    lemma_array_items(hd, body, k as i64);
    lemma_parse_encoded_parts(ps, Seq::empty());
    lemma_items_zero(Seq::empty());
    assert(body + Seq::<u8>::empty() =~= body);
    assert(bulk_values(ps) + Seq::<ReplyValue>::empty() =~= bulk_values(ps));
    lemma_reply_array(hd + body);
    let full = encode_command(ps);
    assert(full =~= seq![42u8] + (hd + body));
    lemma_replies_step(full);
    assert(full.skip(full.len() as int) =~= Seq::<u8>::empty());
    lemma_reply_empty();
    lemma_replies_step(Seq::empty());
    assert(seq![ReplyValue::Array(bulk_values(ps))] + Seq::<ReplyValue>::empty() =~= seq![ReplyValue::Array(bulk_values(ps))]);
}

} // verus!
