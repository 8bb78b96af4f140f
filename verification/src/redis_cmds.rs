//! The Redis commands that the library offers ready-made, as the parts
//! that a commander queues.

use vstd::prelude::*;
use vstd::string::StringSliceAdditionalSpecFns;
use crate::redis_commander::{parts_view, append_decimal};
use crate::resp::dec;

verus! {

/// The bytes of a string.
fn bytes_of(s: &str) -> (r: Vec<u8>)
    ensures
        r@ == s.spec_bytes(),
{
    vstd::slice::slice_to_vec(s.as_bytes())
}

/// The decimal numeral of `n` as a part.
fn decimal_part(n: u64) -> (r: Vec<u8>)
    ensures
        r@ == dec(n as nat),
{
    let mut v: Vec<u8> = Vec::new();
    append_decimal(&mut v, n);
    assert(v@ =~= dec(n as nat));
    v
}

/// `HSET key field value`.
pub fn hset_command(key: &str, field: &str, value: &str) -> (r: Vec<Vec<u8>>)
    ensures
        parts_view(r@) == seq![seq![72u8, 83u8, 69u8, 84u8], key.spec_bytes(), field.spec_bytes(), value.spec_bytes()],
{
    let mut cmd: Vec<Vec<u8>> = Vec::new();
    cmd.push(vec![72u8, 83u8, 69u8, 84u8]);
    cmd.push(bytes_of(key));
    cmd.push(bytes_of(field));
    cmd.push(bytes_of(value));
    assert(parts_view(cmd@) =~= seq![seq![72u8, 83u8, 69u8, 84u8], key.spec_bytes(), field.spec_bytes(), value.spec_bytes()]);
    cmd
}

/// `HGET key field`.
pub fn hget_command(key: &str, field: &str) -> (r: Vec<Vec<u8>>)
    ensures
        parts_view(r@) == seq![seq![72u8, 71u8, 69u8, 84u8], key.spec_bytes(), field.spec_bytes()],
{
    let mut cmd: Vec<Vec<u8>> = Vec::new();
    cmd.push(vec![72u8, 71u8, 69u8, 84u8]);
    cmd.push(bytes_of(key));
    cmd.push(bytes_of(field));
    assert(parts_view(cmd@) =~= seq![seq![72u8, 71u8, 69u8, 84u8], key.spec_bytes(), field.spec_bytes()]);
    cmd
}

/// `HGETALL key`.
pub fn hgetall_command(key: &str) -> (r: Vec<Vec<u8>>)
    ensures
        parts_view(r@) == seq![seq![72u8, 71u8, 69u8, 84u8, 65u8, 76u8, 76u8], key.spec_bytes()],
{
    let mut cmd: Vec<Vec<u8>> = Vec::new();
    cmd.push(vec![72u8, 71u8, 69u8, 84u8, 65u8, 76u8, 76u8]);
    cmd.push(bytes_of(key));
    assert(parts_view(cmd@) =~= seq![seq![72u8, 71u8, 69u8, 84u8, 65u8, 76u8, 76u8], key.spec_bytes()]);
    cmd
}

/// Appends the parts `extra` after the parts of `cmd`.
fn append_parts(cmd: &mut Vec<Vec<u8>>, extra: &Vec<Vec<u8>>)
    ensures
        parts_view(final(cmd)@) == parts_view(old(cmd)@) + parts_view(extra@),
{
    let mut i: usize = 0;
    while i < extra.len()
        invariant
            i <= extra@.len(),
            parts_view(cmd@) == parts_view(old(cmd)@) + parts_view(extra@).take(i as int),
        decreases extra.len() - i,
    {
        let ghost pv = parts_view(cmd@);
        let part = vstd::slice::slice_to_vec(extra[i].as_slice());
        assert(part@ == extra@[i as int]@);
        cmd.push(part);
        assert(parts_view(cmd@) =~= pv.push(extra@[i as int]@));
        assert(parts_view(extra@).take(i + 1) =~= parts_view(extra@).take(i as int).push(extra@[i as int]@));
        i = i + 1;
        assert(parts_view(cmd@) =~= parts_view(old(cmd)@) + parts_view(extra@).take(i as int));
    }
    assert(parts_view(extra@).take(extra@.len() as int) =~= parts_view(extra@));
}

/// `XADD key id field value ...`: the field members come in
/// (field, value) pairs, so there are at least two.
pub fn xadd_command(key: &str, id: &str, field_members: &Vec<Vec<u8>>) -> (r: Vec<Vec<u8>>)
    requires
        field_members@.len() >= 2,
    ensures
        parts_view(r@) == seq![seq![88u8, 65u8, 68u8, 68u8], key.spec_bytes(), id.spec_bytes()]
            + parts_view(field_members@),
{
    let mut cmd: Vec<Vec<u8>> = Vec::new();
    cmd.push(vec![88u8, 65u8, 68u8, 68u8]);
    cmd.push(bytes_of(key));
    cmd.push(bytes_of(id));
    assert(parts_view(cmd@) =~= seq![seq![88u8, 65u8, 68u8, 68u8], key.spec_bytes(), id.spec_bytes()]);
    append_parts(&mut cmd, field_members);
    cmd
}

/// `XREAD COUNT count BLOCK block STREAMS key ... id ...`, with a count
/// of at least one.
pub fn xread_command(count: usize, block: u64, streams: &Vec<Vec<u8>>, ids: &Vec<Vec<u8>>) -> (r: Vec<Vec<u8>>)
    requires
        count > 0,
    ensures
        parts_view(r@) == seq![
            seq![88u8, 82u8, 69u8, 65u8, 68u8],
            seq![67u8, 79u8, 85u8, 78u8, 84u8],
            dec(count as nat),
            seq![66u8, 76u8, 79u8, 67u8, 75u8],
            dec(block as nat),
            seq![83u8, 84u8, 82u8, 69u8, 65u8, 77u8, 83u8]
        ] + parts_view(streams@) + parts_view(ids@),
{
    let mut cmd: Vec<Vec<u8>> = Vec::new();
    cmd.push(vec![88u8, 82u8, 69u8, 65u8, 68u8]);
    cmd.push(vec![67u8, 79u8, 85u8, 78u8, 84u8]);
    cmd.push(decimal_part(count as u64));
    cmd.push(vec![66u8, 76u8, 79u8, 67u8, 75u8]);
    cmd.push(decimal_part(block));
    cmd.push(vec![83u8, 84u8, 82u8, 69u8, 65u8, 77u8, 83u8]);
    assert(parts_view(cmd@) =~= seq![
        seq![88u8, 82u8, 69u8, 65u8, 68u8],
        seq![67u8, 79u8, 85u8, 78u8, 84u8],
        dec(count as nat),
        seq![66u8, 76u8, 79u8, 67u8, 75u8],
        dec(block as nat),
        seq![83u8, 84u8, 82u8, 69u8, 65u8, 77u8, 83u8]
    ]);
    append_parts(&mut cmd, streams);
    append_parts(&mut cmd, ids);
    cmd
}

} // verus!
