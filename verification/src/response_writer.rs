//! The bytes of an http response: status line, default headers, the
//! response's own headers, then the body.

use vstd::prelude::*;
use crate::framing::append_bytes;
use crate::redis_commander::append_decimal;
use crate::resp::{dec, crlf};

verus! {

/// `HTTP/1.1 `
pub open spec fn http11() -> Seq<u8> {
    seq![72u8, 84u8, 84u8, 80u8, 47u8, 49u8, 46u8, 49u8, 32u8]
}

/// `date`
pub open spec fn date_name() -> Seq<u8> {
    seq![100u8, 97u8, 116u8, 101u8]
}

/// `connection`
pub open spec fn connection_name() -> Seq<u8> {
    seq![99u8, 111u8, 110u8, 110u8, 101u8, 99u8, 116u8, 105u8, 111u8, 110u8]
}

/// `content-length`
pub open spec fn content_length_name() -> Seq<u8> {
    seq![99u8, 111u8, 110u8, 116u8, 101u8, 110u8, 116u8, 45u8, 108u8, 101u8, 110u8, 103u8, 116u8, 104u8]
}

/// `close`
pub open spec fn close_value() -> Seq<u8> {
    seq![99u8, 108u8, 111u8, 115u8, 101u8]
}

/// `: `
pub open spec fn colon_space() -> Seq<u8> {
    seq![58u8, 32u8]
}

/// The plain value of a header list.
pub open spec fn headers_view(h: Seq<(Vec<u8>, Vec<u8>)>) -> Seq<(Seq<u8>, Seq<u8>)> {
    h.map_values(|p: (Vec<u8>, Vec<u8>)| (p.0@, p.1@))
}

/// Some header has the name `name`.
pub open spec fn has_header(h: Seq<(Seq<u8>, Seq<u8>)>, name: Seq<u8>) -> bool {
    exists|i: int| 0 <= i < h.len() && (#[trigger] h[i]).0 == name
}

/// A header value that can be written as text: visible ASCII and tabs.
pub open spec fn visible_ascii(v: Seq<u8>) -> bool {
    forall|i: int| 0 <= i < v.len() ==> (32 <= #[trigger] v[i] < 127 || v[i] == 9)
}

/// The header lines `name: value` of the headers whose value is text.
pub open spec fn header_lines(h: Seq<(Seq<u8>, Seq<u8>)>) -> Seq<u8>
    decreases h.len(),
{
    if h.len() == 0 {
        Seq::empty()
    } else {
        header_lines(h.drop_last()) + if visible_ascii(h.last().1) {
            h.last().0 + colon_space() + h.last().1 + crlf()
        } else {
            Seq::empty()
        }
    }
}

/// `HTTP/1.1 <status> <reason>` and a line end.
pub open spec fn status_line(status: u16, reason: Seq<u8>) -> Seq<u8> {
    http11() + dec(status as nat) + seq![32u8] + reason + crlf()
}

/// The date line (the date text alone), unless the response has a date.
pub open spec fn date_part(h: Seq<(Seq<u8>, Seq<u8>)>, date: Seq<u8>) -> Seq<u8> {
    if has_header(h, date_name()) {
        Seq::empty()
    } else {
        date + crlf()
    }
}

/// `connection: close`, unless the response says how to connect.
pub open spec fn connection_part(h: Seq<(Seq<u8>, Seq<u8>)>) -> Seq<u8> {
    if has_header(h, connection_name()) {
        Seq::empty()
    } else {
        connection_name() + colon_space() + close_value() + crlf()
    }
}

/// `content-length: <n>`, unless the response has a length.
pub open spec fn content_length_part(h: Seq<(Seq<u8>, Seq<u8>)>, n: nat) -> Seq<u8> {
    if has_header(h, content_length_name()) {
        Seq::empty()
    } else {
        content_length_name() + colon_space() + dec(n) + crlf()
    }
}

/// The bytes of a response: status line; the date line, `connection:
/// close` and `content-length` unless the response has those headers; its
/// own headers; an empty line; the body.
pub open spec fn response_bytes(
    status: u16,
    reason: Seq<u8>,
    date: Seq<u8>,
    h: Seq<(Seq<u8>, Seq<u8>)>,
    body: Seq<u8>,
) -> Seq<u8> {
    status_line(status, reason) + date_part(h, date) + connection_part(h)
        + content_length_part(h, body.len()) + header_lines(h) + crlf() + body
}

/// The layout of every response: `HTTP/1.1 <status> <reason>` and a line
/// end; the date text and a line end unless some header is named `date`;
/// `connection: close` unless some header is named `connection`;
/// `content-length: <length of the body>` unless some header is named
/// `content-length`; the header lines; an empty line; the body. Each
/// default line depends on its own header name only.
pub proof fn law_response_layout(
    status: u16,
    reason: Seq<u8>,
    date: Seq<u8>,
    h: Seq<(Seq<u8>, Seq<u8>)>,
    body: Seq<u8>,
)
    ensures
        response_bytes(status, reason, date, h, body) == seq![
            72u8,
            84u8,
            84u8,
            80u8,
            47u8,
            49u8,
            46u8,
            49u8,
            32u8,
        ] + dec(status as nat) + seq![32u8] + reason + seq![13u8, 10u8] + (if exists|i: int|
            0 <= i < h.len() && (#[trigger] h[i]).0 == seq![100u8, 97u8, 116u8, 101u8] {
            Seq::<u8>::empty()
        } else {
            date + seq![13u8, 10u8]
        }) + (if exists|i: int|
            0 <= i < h.len() && (#[trigger] h[i]).0 == seq![
                99u8,
                111u8,
                110u8,
                110u8,
                101u8,
                99u8,
                116u8,
                105u8,
                111u8,
                110u8,
            ] {
            Seq::<u8>::empty()
        } else {
            seq![
                99u8,
                111u8,
                110u8,
                110u8,
                101u8,
                99u8,
                116u8,
                105u8,
                111u8,
                110u8,
                58u8,
                32u8,
                99u8,
                108u8,
                111u8,
                115u8,
                101u8,
                13u8,
                10u8,
            ]
        }) + (if exists|i: int|
            0 <= i < h.len() && (#[trigger] h[i]).0 == seq![
                99u8,
                111u8,
                110u8,
                116u8,
                101u8,
                110u8,
                116u8,
                45u8,
                108u8,
                101u8,
                110u8,
                103u8,
                116u8,
                104u8,
            ] {
            Seq::<u8>::empty()
        } else {
            seq![
                99u8,
                111u8,
                110u8,
                116u8,
                101u8,
                110u8,
                116u8,
                45u8,
                108u8,
                101u8,
                110u8,
                103u8,
                116u8,
                104u8,
                58u8,
                32u8,
            ] + dec(body.len()) + seq![13u8, 10u8]
        }) + header_lines(h) + seq![13u8, 10u8] + body,
{
    let close_line = seq![
        99u8,
        111u8,
        110u8,
        110u8,
        101u8,
        99u8,
        116u8,
        105u8,
        111u8,
        110u8,
        58u8,
        32u8,
        99u8,
        108u8,
        111u8,
        115u8,
        101u8,
        13u8,
        10u8,
    ];
    assert(connection_name() + colon_space() + close_value() + crlf() =~= close_line);
    let length_head = seq![
        99u8,
        111u8,
        110u8,
        116u8,
        101u8,
        110u8,
        116u8,
        45u8,
        108u8,
        101u8,
        110u8,
        103u8,
        116u8,
        104u8,
        58u8,
        32u8,
    ];
    assert(content_length_name() + colon_space() =~= length_head);
    assert(content_length_name() + colon_space() + dec(body.len()) + crlf() =~= length_head + dec(
        body.len(),
    ) + seq![13u8, 10u8]);
}

/// The header lines of no headers are empty, and one header more adds its
/// line `name: value` and a line end after the others, when its value is
/// visible ASCII or tabs; a header with another value adds nothing.
pub proof fn law_header_lines(h: Seq<(Seq<u8>, Seq<u8>)>, name: Seq<u8>, value: Seq<u8>)
    ensures
        header_lines(Seq::empty()) == Seq::<u8>::empty(),
        header_lines(h.push((name, value))) == header_lines(h) + if forall|i: int|
            0 <= i < value.len() ==> (32 <= #[trigger] value[i] < 127 || value[i] == 9) {
            name + seq![58u8, 32u8] + value + seq![13u8, 10u8]
        } else {
            Seq::<u8>::empty()
        },
{
    assert(h.push((name, value)).drop_last() =~= h);
}

fn push_seq(out: &mut Vec<u8>, v: Vec<u8>)
    ensures
        final(out)@ == old(out)@ + v@,
{
    append_bytes(out, v.as_slice());
}

fn bytes_equal(a: &Vec<u8>, b: &Vec<u8>) -> (r: bool)
    ensures
        r == (a@ == b@),
{
    if a.len() != b.len() {
        return false;
    }
    let mut i: usize = 0;
    while i < a.len()
        invariant
            a@.len() == b@.len(),
            i <= a@.len(),
            forall|j: int| 0 <= j < i ==> a@[j] == b@[j],
        decreases a.len() - i,
    {
        if a[i] != b[i] {
            return false;
        }
        i = i + 1;
    }
    assert(a@ =~= b@);
    true
}

fn find_header(headers: &Vec<(Vec<u8>, Vec<u8>)>, name: &Vec<u8>) -> (r: bool)
    ensures
        r == has_header(headers_view(headers@), name@),
{
    let ghost h = headers_view(headers@);
    let mut i: usize = 0;
    while i < headers.len()
        invariant
            i <= headers@.len(),
            h == headers_view(headers@),
            forall|j: int| 0 <= j < i ==> (#[trigger] h[j]).0 != name@,
        decreases headers.len() - i,
    {
        if bytes_equal(&headers[i].0, name) {
            assert(h[i as int].0 == name@);
            return true;
        }
        i = i + 1;
    }
    false
}

fn is_visible_ascii(v: &Vec<u8>) -> (r: bool)
    ensures
        r == visible_ascii(v@),
{
    let mut i: usize = 0;
    while i < v.len()
        invariant
            i <= v@.len(),
            forall|j: int| 0 <= j < i ==> (32 <= #[trigger] v@[j] < 127 || v@[j] == 9),
        decreases v.len() - i,
    {
        let b = v[i];
        if !(32 <= b && b < 127 || b == 9) {
            return false;
        }
        i = i + 1;
    }
    true
}

fn append_status_line(out: &mut Vec<u8>, status: u16, reason: &Vec<u8>)
    ensures
        final(out)@ == old(out)@ + status_line(status, reason@),
{
    push_seq(out, vec![72u8, 84u8, 84u8, 80u8, 47u8, 49u8, 46u8, 49u8, 32u8]);
    append_decimal(out, status as u64);
    out.push(32u8);
    append_bytes(out, reason.as_slice());
    push_seq(out, vec![13u8, 10u8]);
    assert(final(out)@ =~= old(out)@ + status_line(status, reason@));
}

fn append_date_part(out: &mut Vec<u8>, headers: &Vec<(Vec<u8>, Vec<u8>)>, date: &Vec<u8>)
    ensures
        final(out)@ == old(out)@ + date_part(headers_view(headers@), date@),
{
    if !find_header(headers, &vec![100u8, 97u8, 116u8, 101u8]) {
        append_bytes(out, date.as_slice());
        push_seq(out, vec![13u8, 10u8]);
        assert(final(out)@ =~= old(out)@ + (date@ + crlf()));
    } else {
        assert(final(out)@ =~= old(out)@ + Seq::<u8>::empty());
    }
}

fn append_connection_part(out: &mut Vec<u8>, headers: &Vec<(Vec<u8>, Vec<u8>)>)
    ensures
        final(out)@ == old(out)@ + connection_part(headers_view(headers@)),
{
    let name = vec![99u8, 111u8, 110u8, 110u8, 101u8, 99u8, 116u8, 105u8, 111u8, 110u8];
    if !find_header(headers, &name) {
        push_seq(out, name);
        push_seq(out, vec![58u8, 32u8]);
        push_seq(out, vec![99u8, 108u8, 111u8, 115u8, 101u8]);
        push_seq(out, vec![13u8, 10u8]);
        assert(final(out)@ =~= old(out)@ + (connection_name() + colon_space() + close_value()
            + crlf()));
    } else {
        assert(final(out)@ =~= old(out)@ + Seq::<u8>::empty());
    }
}

fn append_content_length_part(out: &mut Vec<u8>, headers: &Vec<(Vec<u8>, Vec<u8>)>, n: usize)
    ensures
        final(out)@ == old(out)@ + content_length_part(headers_view(headers@), n as nat),
{
    let name = vec![
        99u8, 111u8, 110u8, 116u8, 101u8, 110u8, 116u8, 45u8, 108u8, 101u8, 110u8, 103u8, 116u8,
        104u8,
    ];
    if !find_header(headers, &name) {
        push_seq(out, name);
        push_seq(out, vec![58u8, 32u8]);
        append_decimal(out, n as u64);
        push_seq(out, vec![13u8, 10u8]);
        assert(final(out)@ =~= old(out)@ + (content_length_name() + colon_space() + dec(n as nat)
            + crlf()));
    } else {
        assert(final(out)@ =~= old(out)@ + Seq::<u8>::empty());
    }
}

fn append_header_lines(out: &mut Vec<u8>, headers: &Vec<(Vec<u8>, Vec<u8>)>)
    ensures
        final(out)@ == old(out)@ + header_lines(headers_view(headers@)),
{
    let ghost h = headers_view(headers@);
    let mut i: usize = 0;
    while i < headers.len()
        invariant
            i <= headers@.len(),
            h == headers_view(headers@),
            out@ == old(out)@ + header_lines(h.take(i as int)),
        decreases headers.len() - i,
    {
        let ghost before = out@;
        assert(h.take(i + 1).drop_last() =~= h.take(i as int));
        assert(h.take(i + 1).last() == h[i as int]);
        if is_visible_ascii(&headers[i].1) {
            append_bytes(out, headers[i].0.as_slice());
            push_seq(out, vec![58u8, 32u8]);
            append_bytes(out, headers[i].1.as_slice());
            push_seq(out, vec![13u8, 10u8]);
            assert(out@ =~= before + (h[i as int].0 + colon_space() + h[i as int].1 + crlf()));
        } else {
            assert(out@ =~= before + Seq::<u8>::empty());
        }
        i = i + 1;
        assert(out@ =~= old(out)@ + header_lines(h.take(i as int)));
    }
    assert(h.take(headers@.len() as int) =~= h);
}

/// The bytes of the response with status `status` (a three digit code),
/// reason phrase `reason`, date text `date`, headers `headers` (names in
/// lower case) and body `body`.
pub fn write_response(
    status: u16,
    reason: &Vec<u8>,
    date: &Vec<u8>,
    headers: &Vec<(Vec<u8>, Vec<u8>)>,
    body: &Vec<u8>,
) -> (r: Vec<u8>)
    ensures
        r@ == response_bytes(status, reason@, date@, headers_view(headers@), body@),
{
    let mut out: Vec<u8> = Vec::new();
    append_status_line(&mut out, status, reason);
    append_date_part(&mut out, headers, date);
    append_connection_part(&mut out, headers);
    append_content_length_part(&mut out, headers, body.len());
    append_header_lines(&mut out, headers);
    push_seq(&mut out, vec![13u8, 10u8]);
    append_bytes(&mut out, body.as_slice());
    assert(out@ =~= response_bytes(status, reason@, date@, headers_view(headers@), body@));
    out
}

/// The reason phrase that `http::StatusCode::canonical_reason` gives for
/// `status`, as bytes; none for a code outside 100 to 999 or one without a
/// standard phrase.
pub uninterp spec fn http_reason(status: u16) -> Option<Seq<u8>>;

/// `http::StatusCode::from_u16` and `StatusCode::canonical_reason`: the
/// standard reason phrase of a status code, if it has one. The phrase table
/// is named, not restated.
#[verifier::external_body]
fn canonical_reason(status: u16) -> (r: Option<Vec<u8>>)
    ensures
        match r {
            Some(v) => http_reason(status) == Some(v@),
            None => (http_reason(status) is None),
        },
{
    match http::StatusCode::from_u16(status) {
        Ok(code) => match code.canonical_reason() {
            Some(text) => Some(text.as_bytes().to_vec()),
            None => None,
        },
        Err(_) => None,
    }
}

/// The bytes of the response with status `status` and its standard reason
/// phrase, date text `date`, headers `headers` and body `body`; none for a
/// status without a standard reason phrase.
pub fn write_status_response(
    status: u16,
    date: &Vec<u8>,
    headers: &Vec<(Vec<u8>, Vec<u8>)>,
    body: &Vec<u8>,
) -> (r: Option<Vec<u8>>)
    ensures
        match r {
            Some(v) => http_reason(status) matches Some(reason) && v@ == response_bytes(
                status,
                reason,
                date@,
                headers_view(headers@),
                body@,
            ),
            None => (http_reason(status) is None),
        },
{
    match canonical_reason(status) {
        Some(reason) => Some(write_response(status, &reason, date, headers, body)),
        None => None,
    }
}

} // verus!
