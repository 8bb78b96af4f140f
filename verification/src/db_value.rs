//! Column values of a database row and their conversions: to integers,
//! dates, times, text and JSON scalars.
//!
//! Floating-point columns are held by their bit patterns; what is done with
//! their value as a number is the caller's.

use vstd::prelude::*;
use crate::framing::append_bytes;
use crate::redis_commander::{append_decimal, signed_decimal, idec};
use crate::resp::dec;
use crate::base64_codec::ascii_chars;
use vstd::string::*;
use chrono::TimeZone;

verus! {

/// A column value.
#[derive(Debug, PartialEq, Eq, Clone)]
pub enum DbValue {
    NULL,
    Bytes(Vec<u8>),
    Int(i64),
    UInt(u64),
    /// A 32-bit float, by its bits.
    Float(u32),
    /// A 64-bit float, by its bits.
    Double(u64),
    /// Year, month, day, hour, minutes, seconds, microseconds.
    Date(u16, u8, u8, u8, u8, u8, u32),
    /// Negative, days, hours, minutes, seconds, microseconds.
    Time(bool, u32, u8, u8, u8, u32),
}

/// A JSON scalar made from a column value; floats by their bits.
#[derive(Debug, PartialEq, Eq, Clone)]
pub enum JsonValue {
    Null,
    String(Vec<u8>),
    Int(i64),
    UInt(u64),
    Float(u32),
    Double(u64),
}

/// A leap year of the proleptic Gregorian calendar.
pub open spec fn is_leap(y: int) -> bool {
    y % 4 == 0 && (y % 100 != 0 || y % 400 == 0)
}

/// Days in month `m` of year `y`.
pub open spec fn days_in_month(y: int, m: int) -> int {
    if m == 2 {
        if is_leap(y) { 29 } else { 28 }
    } else if m == 4 || m == 6 || m == 9 || m == 11 {
        30
    } else {
        31
    }
}

/// A date and time that exist: month, day, hour, minutes and seconds in
/// range.
pub open spec fn valid_datetime(y: int, mo: int, d: int, h: int, mi: int, s: int) -> bool {
    &&& 1 <= mo <= 12
    &&& 1 <= d <= days_in_month(y, mo)
    &&& 0 <= h < 24
    &&& 0 <= mi < 60
    &&& 0 <= s < 60
}

/// Days from 1970-01-01 to the date (proleptic Gregorian calendar).
pub open spec fn days_from_civil(y: int, m: int, d: int) -> int {
    let y2 = if m <= 2 { y - 1 } else { y };
    let era = y2 / 400;
    let yoe = y2 % 400;
    let mp = (m + 9) % 12;
    let doy = (153 * mp + 2) / 5 + d - 1;
    let doe = yoe * 365 + yoe / 4 - yoe / 100 + doy;
    era * 146097 + doe - 719468
}

/// Seconds from the Unix epoch to the date and time in UTC.
pub open spec fn utc_timestamp(y: int, mo: int, d: int, h: int, mi: int, s: int) -> int {
    days_from_civil(y, mo, d) * 86400 + h * 3600 + mi * 60 + s
}

/// Two digits of `n` (below 100).
pub open spec fn two_digits(n: int) -> Seq<u8> {
    seq![(48 + n / 10) as u8, (48 + n % 10) as u8]
}

/// RFC 3339 text of a UTC date and time with whole seconds, as chrono
/// writes it: four digit year (or its sign and digits past 9999),
/// `-MM-DDTHH:MM:SS` and the offset `+00:00`.
pub open spec fn rfc3339_bytes(y: int, mo: int, d: int, h: int, mi: int, s: int) -> Seq<u8> {
    (if y <= 9999 { two_digits(y / 100) + two_digits(y % 100) } else { seq![43u8] + dec(
        y as nat,
    ) }) + seq![45u8] + two_digits(mo) + seq![45u8] + two_digits(d) + seq![84u8] + two_digits(h)
        + seq![58u8] + two_digits(mi) + seq![58u8] + two_digits(s) + seq![
        43u8,
        48u8,
        48u8,
        58u8,
        48u8,
        48u8,
    ]
}

/// `chrono::Utc.with_ymd_and_hms(..)` and `DateTime::to_rfc3339`: no value
/// for a date or time that does not exist, else its RFC 3339 text.
#[verifier::external_body]
fn chrono_rfc3339(y: u16, mo: u8, d: u8, h: u8, mi: u8, s: u8) -> (r: Option<String>)
    ensures
        r is Some <==> valid_datetime(y as int, mo as int, d as int, h as int, mi as int, s as int),
        r matches Some(t) ==> t@ == ascii_chars(
            rfc3339_bytes(y as int, mo as int, d as int, h as int, mi as int, s as int),
        ),
{
    match chrono::Utc.with_ymd_and_hms(y as i32, mo as u32, d as u32, h as u32, mi as u32, s as u32) {
        chrono::LocalResult::Single(dt) => Some(dt.to_rfc3339()),
        chrono::LocalResult::Ambiguous(_, _) => None,
        chrono::LocalResult::None => None,
    }
}

/// `chrono::Utc.with_ymd_and_hms(..)` and `DateTime::timestamp`: no value
/// for a date or time that does not exist, else its Unix time in seconds.
#[verifier::external_body]
fn chrono_timestamp(y: u16, mo: u8, d: u8, h: u8, mi: u8, s: u8) -> (r: Option<i64>)
    ensures
        r is Some <==> valid_datetime(y as int, mo as int, d as int, h as int, mi as int, s as int),
        r matches Some(t) ==> t == utc_timestamp(
            y as int,
            mo as int,
            d as int,
            h as int,
            mi as int,
            s as int,
        ),
{
    match chrono::Utc.with_ymd_and_hms(y as i32, mo as u32, d as u32, h as u32, mi as u32, s as u32) {
        chrono::LocalResult::Single(dt) => Some(dt.timestamp()),
        chrono::LocalResult::Ambiguous(_, _) => None,
        chrono::LocalResult::None => None,
    }
}

/// `n` in decimal, with zeros in front up to `width` digits.
pub open spec fn padded(n: nat, width: nat) -> Seq<u8> {
    if dec(n).len() < width {
        Seq::new((width - dec(n).len()) as nat, |i: int| 48u8) + dec(n)
    } else {
        dec(n)
    }
}

/// Text of a time value: sign, total hours, two digit minutes and seconds,
/// and nine digit nanoseconds when there are any.
pub open spec fn time_text(neg: bool, days: int, hours: int, mi: int, s: int, micros: int) -> Seq<
    u8,
> {
    (if neg { seq![45u8] } else { Seq::empty() }) + dec((days * 24 + hours) as nat) + seq![58u8]
        + padded(mi as nat, 2) + seq![58u8] + padded(s as nat, 2) + if micros * 1000 > 0 {
        seq![46u8] + padded((micros * 1000) as nat, 9)
    } else {
        Seq::empty()
    }
}

/// What converting a value to text needs: no float (its text is the
/// caller's), a date that exists, and a time whose hours and nanoseconds
/// fit in 32 bits.
pub open spec fn text_convertible(v: DbValue) -> bool {
    match v {
        DbValue::Float(_) | DbValue::Double(_) => false,
        DbValue::Date(y, mo, d, h, mi, s, us) => (y == 0 && mo == 0 && d == 0 && h == 0 && mi == 0
            && s == 0 && us == 0) || valid_datetime(
            y as int,
            mo as int,
            d as int,
            h as int,
            mi as int,
            s as int,
        ),
        DbValue::Time(_, days, hours, _, _, us) => days * 24 + hours <= u32::MAX && us * 1000
            <= u32::MAX,
        _ => true,
    }
}

/// The text of a value: empty for NULL, the bytes themselves, decimal
/// integers, RFC 3339 for dates (the zero date being the epoch; the
/// microseconds are not written), and `[-]H:MM:SS[.NNNNNNNNN]` for times.
pub open spec fn value_text(v: DbValue) -> Seq<u8> {
    match v {
        DbValue::NULL => Seq::empty(),
        DbValue::Bytes(b) => b@,
        DbValue::Int(n) => idec(n as int),
        DbValue::UInt(n) => dec(n as nat),
        DbValue::Date(y, mo, d, h, mi, s, us) => if y == 0 && mo == 0 && d == 0 && h == 0 && mi
            == 0 && s == 0 && us == 0 {
            rfc3339_bytes(1970, 1, 1, 0, 0, 0)
        } else {
            rfc3339_bytes(y as int, mo as int, d as int, h as int, mi as int, s as int)
        },
        DbValue::Time(neg, days, hours, mi, s, us) => time_text(
            neg,
            days as int,
            hours as int,
            mi as int,
            s as int,
            us as int,
        ),
        _ => Seq::empty(),
    }
}

fn string_bytes(s: &String) -> (r: Vec<u8>)
    ensures
        r@ == vstd::utf8::encode_utf8(s@),
{
    let b = s.as_str().as_bytes();
    let mut v: Vec<u8> = Vec::new();
    append_bytes(&mut v, b);
    v
}

proof fn lemma_ascii_bytes(chars: Seq<char>, b: Seq<u8>)
    requires
        chars == ascii_chars(b),
        forall|i: int| 0 <= i < b.len() ==> b[i] < 128,
    ensures
        vstd::utf8::encode_utf8(chars) == b,
{
    assert(vstd::utf8::is_ascii_chars(chars)) by {
        assert forall|i: int| 0 <= i < chars.len() implies '\0' <= #[trigger] chars[i] <= '\u{7f}' by {
            assert(chars[i] == b[i] as char);
        }
    }
    vstd::utf8::is_ascii_chars_encode_utf8(chars);
    let e = vstd::utf8::encode_utf8(chars);
    assert forall|i: int| 0 <= i < b.len() implies e[i] == b[i] by {
        assert(chars[i] as u8 == e[i]);
        assert(chars[i] == b[i] as char);
    }
    assert(e =~= b);
}

proof fn lemma_dec_digits(n: nat)
    ensures
        forall|i: int| 0 <= i < dec(n).len() ==> #[trigger] dec(n)[i] < 128,
{
    crate::resp::lemma_dec(n);
    assert forall|i: int| 0 <= i < dec(n).len() implies #[trigger] dec(n)[i] < 128 by {
        assert(crate::resp::is_digit(dec(n)[i]));
    }
}

proof fn lemma_rfc3339_ascii(y: int, mo: int, d: int, h: int, mi: int, s: int)
    requires
        0 <= y <= 65535,
        valid_datetime(y, mo, d, h, mi, s),
    ensures
        forall|i: int| 0 <= i < rfc3339_bytes(y, mo, d, h, mi, s).len() ==> #[trigger] rfc3339_bytes(
            y,
            mo,
            d,
            h,
            mi,
            s,
        )[i] < 128,
{
    lemma_dec_digits(y as nat);
}

fn date_text(y: u16, mo: u8, d: u8, h: u8, mi: u8, s: u8) -> (r: Vec<u8>)
    requires
        valid_datetime(y as int, mo as int, d as int, h as int, mi as int, s as int),
    ensures
        r@ == rfc3339_bytes(y as int, mo as int, d as int, h as int, mi as int, s as int),
{
    match chrono_rfc3339(y, mo, d, h, mi, s) {
        Some(t) => {
            proof {
                lemma_rfc3339_ascii(y as int, mo as int, d as int, h as int, mi as int, s as int);
                lemma_ascii_bytes(
                    t@,
                    rfc3339_bytes(y as int, mo as int, d as int, h as int, mi as int, s as int),
                );
            }
            string_bytes(&t)
        },
        None => Vec::new(),
    }
}

fn append_padded(out: &mut Vec<u8>, n: u64, width: usize)
    ensures
        final(out)@ == old(out)@ + padded(n as nat, width as nat),
{
    let mut digits: Vec<u8> = Vec::new();
    append_decimal(&mut digits, n);
    assert(digits@ =~= dec(n as nat));
    let len = digits.len();
    if len < width {
        let mut i: usize = 0;
        let k = width - len;
        while i < k
            invariant
                i <= k,
                out@ == old(out)@ + Seq::new(i as nat, |j: int| 48u8),
            decreases k - i,
        {
            out.push(48u8);
            i = i + 1;
            assert(out@ =~= old(out)@ + Seq::new(i as nat, |j: int| 48u8));
        }
    }
    append_bytes(out, digits.as_slice());
    assert(final(out)@ =~= old(out)@ + padded(n as nat, width as nat));
}

fn time_value_text(neg: bool, days: u32, hours: u8, mi: u8, s: u8, micros: u32) -> (r: Vec<u8>)
    requires
        days * 24 + hours <= u32::MAX,
        micros * 1000 <= u32::MAX,
    ensures
        r@ == time_text(neg, days as int, hours as int, mi as int, s as int, micros as int),
{
    let total_hours: u32 = days * 24 + hours as u32;
    let total_nanos: u32 = micros * 1000;
    let mut out: Vec<u8> = Vec::new();
    if neg {
        out.push(45u8);
    }
    append_decimal(&mut out, total_hours as u64);
    out.push(58u8);
    append_padded(&mut out, mi as u64, 2);
    out.push(58u8);
    append_padded(&mut out, s as u64, 2);
    if total_nanos > 0 {
        out.push(46u8);
        append_padded(&mut out, total_nanos as u64, 9);
    }
    assert(out@ =~= time_text(neg, days as int, hours as int, mi as int, s as int, micros as int));
    out
}

/// The text of a value; floats are left to the caller.
pub fn value_to_string(val: &DbValue) -> (r: Vec<u8>)
    requires
        text_convertible(*val),
    ensures
        r@ == value_text(*val),
{
    match val {
        DbValue::NULL => Vec::new(),
        DbValue::Bytes(b) => {
            let mut v: Vec<u8> = Vec::new();
            append_bytes(&mut v, b.as_slice());
            v
        },
        DbValue::Int(n) => signed_decimal(*n),
        DbValue::UInt(n) => {
            let mut v: Vec<u8> = Vec::new();
            append_decimal(&mut v, *n);
            assert(v@ =~= dec(*n as nat));
            v
        },
        DbValue::Date(y, mo, d, h, mi, s, us) => {
            if *y == 0 && *mo == 0 && *d == 0 && *h == 0 && *mi == 0 && *s == 0 && *us == 0 {
                date_text(1970, 1, 1, 0, 0, 0)
            } else {
                date_text(*y, *mo, *d, *h, *mi, *s)
            }
        },
        DbValue::Time(neg, days, hours, mi, s, us) => time_value_text(
            *neg,
            *days,
            *hours,
            *mi,
            *s,
            *us,
        ),
        DbValue::Float(_) | DbValue::Double(_) => Vec::new(),
    }
}

/// The same as [`value_to_string`].
pub fn to_string(val: &DbValue) -> (r: Vec<u8>)
    requires
        text_convertible(*val),
    ensures
        r@ == value_text(*val),
{
    value_to_string(val)
}

/// The JSON scalar of a value: null, a number for integers and floats,
/// a string holding [`value_text`] for bytes, dates and times.
pub fn value_to_json(val: &DbValue) -> (r: JsonValue)
    requires
        match *val {
            DbValue::Float(_) | DbValue::Double(_) => true,
            _ => text_convertible(*val),
        },
    ensures
        match *val {
            DbValue::NULL => r is Null,
            DbValue::Int(n) => r == JsonValue::Int(n),
            DbValue::UInt(n) => r == JsonValue::UInt(n),
            DbValue::Float(b) => r == JsonValue::Float(b),
            DbValue::Double(b) => r == JsonValue::Double(b),
            _ => r matches JsonValue::String(t) && t@ == value_text(*val),
        },
{
    match val {
        DbValue::NULL => JsonValue::Null,
        DbValue::Int(n) => JsonValue::Int(*n),
        DbValue::UInt(n) => JsonValue::UInt(*n),
        DbValue::Float(b) => JsonValue::Float(*b),
        DbValue::Double(b) => JsonValue::Double(*b),
        _ => JsonValue::String(value_to_string(val)),
    }
}

/// The same as [`value_to_json`].
pub fn to_json(val: &DbValue) -> (r: JsonValue)
    requires
        match *val {
            DbValue::Float(_) | DbValue::Double(_) => true,
            _ => text_convertible(*val),
        },
    ensures
        match *val {
            DbValue::NULL => r is Null,
            DbValue::Int(n) => r == JsonValue::Int(n),
            DbValue::UInt(n) => r == JsonValue::UInt(n),
            DbValue::Float(b) => r == JsonValue::Float(b),
            DbValue::Double(b) => r == JsonValue::Double(b),
            _ => r matches JsonValue::String(t) && t@ == value_text(*val),
        },
{
    value_to_json(val)
}

/// The bytes of a value as text: none for NULL, the bytes of a byte value,
/// empty for any other value.
pub fn value_to_str(val: &DbValue) -> (r: Option<Vec<u8>>)
    ensures
        match *val {
            DbValue::NULL => r is None,
            DbValue::Bytes(b) => r matches Some(t) && t@ == b@,
            _ => r matches Some(t) && t@.len() == 0,
        },
{
    value_to_blob(val)
}

/// The bytes of a value: none for NULL, the bytes of a byte value, empty
/// for any other value.
pub fn value_to_blob(val: &DbValue) -> (r: Option<Vec<u8>>)
    ensures
        match *val {
            DbValue::NULL => r is None,
            DbValue::Bytes(b) => r matches Some(t) && t@ == b@,
            _ => r matches Some(t) && t@.len() == 0,
        },
{
    match val {
        DbValue::NULL => None,
        DbValue::Bytes(b) => {
            let mut v: Vec<u8> = Vec::new();
            append_bytes(&mut v, b.as_slice());
            Some(v)
        },
        _ => Some(Vec::new()),
    }
}

/// A signed integer value: none for NULL, the value of an `Int`, zero for
/// any other value (an unsigned value included).
pub fn value_to_int64(val: &DbValue) -> (r: Option<i64>)
    ensures
        r == match *val {
            DbValue::NULL => None,
            DbValue::Int(n) => Some(n),
            _ => Some(0i64),
        },
{
    match val {
        DbValue::NULL => None,
        DbValue::Int(n) => Some(*n),
        _ => Some(0),
    }
}

/// An unsigned integer value: none for NULL, the bits of an `Int` read as
/// unsigned, zero for any other value (an unsigned value included).
pub fn value_to_uint64(val: &DbValue) -> (r: Option<u64>)
    ensures
        r == match *val {
            DbValue::NULL => None,
            DbValue::Int(n) => Some(
                (if n < 0 { n + 18446744073709551616 } else { n as int }) as u64,
            ),
            _ => Some(0u64),
        },
{
    match val {
        DbValue::NULL => None,
        DbValue::Int(n) => {
            let u: u64 = if *n < 0 {
                (18446744073709551615u64 - ((-(*n + 1)) as u64))
            } else {
                *n as u64
            };
            Some(u)
        },
        _ => Some(0),
    }
}

/// The bits of a 32-bit float value: none for NULL, zero for any other
/// value.
pub fn value_to_float(val: &DbValue) -> (r: Option<u32>)
    ensures
        r == match *val {
            DbValue::NULL => None,
            DbValue::Float(b) => Some(b),
            _ => Some(0u32),
        },
{
    match val {
        DbValue::NULL => None,
        DbValue::Float(b) => Some(*b),
        _ => Some(0),
    }
}

/// The bits of a 64-bit float value: none for NULL, zero for any other
/// value.
pub fn value_to_double(val: &DbValue) -> (r: Option<u64>)
    ensures
        r == match *val {
            DbValue::NULL => None,
            DbValue::Double(b) => Some(b),
            _ => Some(0u64),
        },
{
    match val {
        DbValue::NULL => None,
        DbValue::Double(b) => Some(*b),
        _ => Some(0),
    }
}

/// The fields of a date value: none for NULL, zeros for any other value.
pub fn value_to_date(val: &DbValue) -> (r: Option<(u16, u8, u8, u8, u8, u8, u32)>)
    ensures
        r == match *val {
            DbValue::NULL => None,
            DbValue::Date(y, mo, d, h, mi, s, us) => Some((y, mo, d, h, mi, s, us)),
            _ => Some((0u16, 0u8, 0u8, 0u8, 0u8, 0u8, 0u32)),
        },
{
    match val {
        DbValue::NULL => None,
        DbValue::Date(y, mo, d, h, mi, s, us) => Some((*y, *mo, *d, *h, *mi, *s, *us)),
        _ => Some((0, 0, 0, 0, 0, 0, 0)),
    }
}

/// The fields of a time value: none for NULL, zeros for any other value.
pub fn value_to_time(val: &DbValue) -> (r: Option<(bool, u32, u8, u8, u8, u32)>)
    ensures
        r == match *val {
            DbValue::NULL => None,
            DbValue::Time(neg, days, h, mi, s, us) => Some((neg, days, h, mi, s, us)),
            _ => Some((false, 0u32, 0u8, 0u8, 0u8, 0u32)),
        },
{
    match val {
        DbValue::NULL => None,
        DbValue::Time(neg, days, h, mi, s, us) => Some((*neg, *days, *h, *mi, *s, *us)),
        _ => Some((false, 0, 0, 0, 0, 0)),
    }
}

/// The Unix time of a date value, in seconds, with its microseconds: none
/// for NULL, zeros for the zero date and for a value that is no date.
pub fn value_to_timestamp(val: &DbValue) -> (r: Option<(i64, u32)>)
    requires
        match *val {
            DbValue::Date(y, mo, d, h, mi, s, us) => (y == 0 && mo == 0 && d == 0 && h == 0
                && mi == 0 && s == 0 && us == 0) || valid_datetime(
                y as int,
                mo as int,
                d as int,
                h as int,
                mi as int,
                s as int,
            ),
            _ => true,
        },
    ensures
        match *val {
            DbValue::NULL => r is None,
            DbValue::Date(y, mo, d, h, mi, s, us) => if y == 0 && mo == 0 && d == 0 && h == 0
                && mi == 0 && s == 0 && us == 0 {
                r == Some((0i64, 0u32))
            } else {
                r matches Some(p) && p.0 == utc_timestamp(
                    y as int,
                    mo as int,
                    d as int,
                    h as int,
                    mi as int,
                    s as int,
                ) && p.1 == us
            },
            _ => r == Some((0i64, 0u32)),
        },
{
    match value_to_date(val) {
        None => None,
        Some((y, mo, d, h, mi, s, us)) => {
            if y == 0 && mo == 0 && d == 0 && h == 0 && mi == 0 && s == 0 && us == 0 {
                Some((0, 0))
            } else {
                match chrono_timestamp(y, mo, d, h, mi, s) {
                    Some(t) => Some((t, us)),
                    None => Some((0, 0)),
                }
            }
        },
    }
}

} // verus!
