//! Packet headers of each packet type, and the XOR obfuscation of the first
//! bytes of a client packet.
//!
//! Wire layouts (all numbers big-endian):
//! - server and to-client: `len(4) cmd(2) body`, `len` counting the header;
//! - from-client: `len(2) no(1) cmd(2) body`, `cmd` and the first body
//!   bytes obfuscated with the key at offset `no`;
//! - to-client over websocket: `cmd(2) body`;
//! - from-client over websocket: `no(1) cmd(2) body`, obfuscated.

use vstd::prelude::*;
use vstd::string::StringSliceAdditionalSpecFns;
use crate::framing::{be_value, peek_leading_field, copy_range, append_bytes};
use crate::ids::ConnId;
use crate::rand_bytes::rand_between_exclusive_i8;

pub use crate::packet::{PacketType, get_leading_field_size};

verus! {

/// Size of the command field.
pub const PKT_CMD_LEN: usize = 2;

/// Number of body bytes that are obfuscated at most.
pub const ENCRYPT_MAX_BODY_LEN: usize = 4;

/// Number of bytes that are obfuscated at most: command and body.
pub const ENCRYPT_MAX_LEN: usize = 6;

/// Length of an obfuscation key; the packet number is an offset into it.
pub const ENCRYPT_KEY_LEN: usize = 64;

/// How many packet numbers of a connection are remembered.
pub const SAVED_NO_COUNT: usize = 1;

/// Length field (4) and command (2) of a packet between servers.
pub const SERVER_INNER_HEADER_SIZE: usize = 6;

/// Length field (4) and command (2) of a packet sent to a client.
pub const TO_CLIENT_HEADER_SIZE: usize = 6;

/// Length field (2), packet number (1) and command (2) of a client packet.
pub const FROM_CLIENT_HEADER_SIZE: usize = 5;

/// Command (2) of a websocket packet sent to a client.
pub const TO_CLIENT_HEADER_SIZE_WS: usize = 2;

/// Packet number (1) and command (2) of a websocket client packet.
pub const FROM_CLIENT_HEADER_SIZE_WS: usize = 3;

/// Number of leading bytes that are obfuscated for a body of `len` bytes
/// and packet number `no`: the command and up to four body bytes, cut where
/// the key runs out.
pub open spec fn encrypt_len(len: nat, no: int) -> int {
    let slice_len: int = if len < 4 { len + 2int } else { 6int };
    let key_len: int = 64 - no;
    if slice_len <= key_len { slice_len } else { key_len }
}

/// `data` with its first `n` bytes XORed with the key bytes from `no` on.
pub open spec fn xor_prefix(data: Seq<u8>, key: Seq<u8>, no: int, n: int) -> Seq<u8> {
    Seq::new(data.len(), |i: int| if i < n { data[i] ^ key[no + i] } else { data[i] })
}

/// The two big-endian bytes of `v`.
pub open spec fn be16(v: nat) -> Seq<u8> {
    seq![(v / 256 % 256) as u8, (v % 256) as u8]
}

/// The four big-endian bytes of `v`.
pub open spec fn be32(v: nat) -> Seq<u8> {
    seq![(v / 16777216 % 256) as u8, (v / 65536 % 256) as u8, (v / 256 % 256) as u8, (v % 256) as u8]
}

proof fn lemma_xor_twice(a: u8, b: u8)
    ensures
        (a ^ b) ^ b == a,
{
    assert((a ^ b) ^ b == a) by (bit_vector);
}

/// Obfuscating twice with the same key and number gives the bytes back.
pub proof fn law_xor_involution(data: Seq<u8>, key: Seq<u8>, no: int, n: int)
    ensures
        xor_prefix(xor_prefix(data, key, no, n), key, no, n) == data,
{
    let once = xor_prefix(data, key, no, n);
    let twice = xor_prefix(once, key, no, n);
    assert forall|i: int| 0 <= i < data.len() implies twice[i] == data[i] by {
        if i < n {
            lemma_xor_twice(data[i], key[no + i]);
        }
    }
    assert(twice =~= data);
}

/// A big-endian field reads back as the value that was written.
pub proof fn lemma_be16_value(v: nat, rest: Seq<u8>)
    requires
        v < 65536,
    ensures
        be_value(be16(v) + rest, 2) == v,
{
    reveal_with_fuel(be_value, 3);
    let s = be16(v) + rest;
    assert(s[0] == (v / 256 % 256) as u8);
    assert(s[1] == (v % 256) as u8);
    assert(v / 256 < 256) by (nonlinear_arith)
        requires v < 65536;
    assert((v / 256) * 256 + v % 256 == v) by (nonlinear_arith);
}

/// Four big-endian bytes read back as the value that was written.
pub proof fn lemma_be32_value(v: nat, rest: Seq<u8>)
    requires
        v < 4294967296,
    ensures
        be_value(be32(v) + rest, 4) == v,
{
    reveal_with_fuel(be_value, 5);
    let s = be32(v) + rest;
    assert(s[0] == (v / 16777216 % 256) as u8);
    assert(s[1] == (v / 65536 % 256) as u8);
    assert(s[2] == (v / 256 % 256) as u8);
    assert(s[3] == (v % 256) as u8);
    assert(v / 16777216 < 256) by (nonlinear_arith)
        requires v < 4294967296;
    assert((v / 16777216) * 256 + v / 65536 % 256 == v / 65536) by (nonlinear_arith);
    assert((v / 65536) * 256 + v / 256 % 256 == v / 256) by (nonlinear_arith);
    assert((v / 256) * 256 + v % 256 == v) by (nonlinear_arith);
}

/// XORs the first bytes of `data` (the command and up to four bytes of a
/// body of `len` bytes) with `key` from offset `no` on.
pub fn encrypt_packet(data: &mut Vec<u8>, len: usize, key: &str, no: i8)
    requires
        0 <= no <= ENCRYPT_KEY_LEN,
        encrypt_len(len as nat, no as int) <= old(data)@.len(),
        no + encrypt_len(len as nat, no as int) <= key.spec_bytes().len(),
    ensures
        final(data)@ == xor_prefix(
            old(data)@,
            key.spec_bytes(),
            no as int,
            encrypt_len(len as nat, no as int),
        ),
{
    let slice_len: usize = if len < ENCRYPT_MAX_BODY_LEN {
        PKT_CMD_LEN + len
    } else {
        ENCRYPT_MAX_LEN
    };
    let off = no as usize;
    let key_len: usize = ENCRYPT_KEY_LEN - off;
    let n: usize = if slice_len <= key_len { slice_len } else { key_len };
    let kb = key.as_bytes();
    let ghost k = key.spec_bytes();
    let mut i: usize = 0;
    while i < n
        invariant
            i <= n,
            n == encrypt_len(len as nat, no as int),
            n <= data@.len(),
            off == no,
            off + n <= kb@.len(),
            kb@ == k,
            data@.len() == old(data)@.len(),
            forall|j: int| 0 <= j < data@.len() ==> #[trigger] data@[j] == (if j < i {
                old(data)@[j] ^ k[off + j]
            } else {
                old(data)@[j]
            }),
        decreases n - i,
    {
        let b = data[i] ^ kb[off + i];
        data.set(i, b);
        i = i + 1;
    }
    assert(data@ =~= xor_prefix(old(data)@, k, no as int, n as int));
}

/// Removes the obfuscation that [`encrypt_packet`] applies: XOR is its own
/// inverse.
pub fn decrypt_packet(data: &mut Vec<u8>, len: usize, key: &str, no: i8)
    requires
        0 <= no <= ENCRYPT_KEY_LEN,
        encrypt_len(len as nat, no as int) <= old(data)@.len(),
        no + encrypt_len(len as nat, no as int) <= key.spec_bytes().len(),
    ensures
        final(data)@ == xor_prefix(
            old(data)@,
            key.spec_bytes(),
            no as int,
            encrypt_len(len as nat, no as int),
        ),
{
    encrypt_packet(data, len, key, no);
}

/// Appends the two big-endian bytes of `v`.
fn push_u16(dst: &mut Vec<u8>, v: u16)
    ensures
        final(dst)@ == old(dst)@ + be16(v as nat),
{
    dst.push((v / 256) as u8);
    dst.push((v % 256) as u8);
    assert(final(dst)@ =~= old(dst)@ + be16(v as nat));
}

/// Appends the four big-endian bytes of `v`.
fn push_u32(dst: &mut Vec<u8>, v: u32)
    ensures
        final(dst)@ == old(dst)@ + be32(v as nat),
{
    dst.push((v / 16777216) as u8);
    dst.push((v / 65536 % 256) as u8);
    dst.push((v / 256 % 256) as u8);
    dst.push((v % 256) as u8);
    assert(final(dst)@ =~= old(dst)@ + be32(v as nat));
}


/// A packet: its header fields and the bytes of its buffer not read yet.
pub struct NetPacket {
    pub cmd: u16,
    pub body_size: usize,
    pub client_no: i8,
    pub buffer: Vec<u8>,
}

/// The mathematical value of a [`NetPacket`].
pub struct PacketView {
    pub cmd: u16,
    pub body_size: nat,
    pub client_no: i8,
    pub buffer: Seq<u8>,
}

impl View for NetPacket {
    type V = PacketView;

    open spec fn view(&self) -> PacketView {
        PacketView {
            cmd: self.cmd,
            body_size: self.body_size as nat,
            client_no: self.client_no,
            buffer: self.buffer@,
        }
    }
}

impl NetPacket {
    /// A packet with command `cmd` whose buffer holds the body `body`.
    pub fn new(cmd: u16, body: Vec<u8>) -> (r: NetPacket)
        ensures
            r@ == (PacketView { cmd, body_size: body@.len(), client_no: 0, buffer: body@ }),
    {
        let n = body.len();
        NetPacket { cmd, body_size: n, client_no: 0, buffer: body }
    }
}

/// The buffer after a four byte length header and the command are put in
/// front of it (server packets and packets sent to a client).
pub open spec fn long_header_written(p: PacketView) -> PacketView {
    PacketView {
        buffer: be32(((6 + p.body_size) % 4294967296) as nat) + be16(p.cmd as nat) + p.buffer,
        ..p
    }
}

/// The packet after its four byte length header and command are read.
pub open spec fn long_header_read(p: PacketView) -> PacketView {
    PacketView {
        cmd: be_value(p.buffer.skip(4), 2) as u16,
        body_size: (be_value(p.buffer, 4) - 6) as nat,
        client_no: p.client_no,
        buffer: p.buffer.skip(6),
    }
}

/// The obfuscated command and body of a packet from a client.
pub open spec fn obfuscated_payload(p: PacketView, key: Seq<u8>) -> Seq<u8> {
    xor_prefix(
        be16(p.cmd as nat) + p.buffer,
        key,
        p.client_no as int,
        encrypt_len(p.body_size, p.client_no as int),
    )
}

/// The buffer of a packet as a client sends it: two byte length, packet
/// number, then the obfuscated command and body.
pub open spec fn client_header_written(p: PacketView, key: Seq<u8>) -> PacketView {
    PacketView {
        buffer: be16(((5 + p.body_size) % 65536) as nat) + seq![p.client_no as u8]
            + obfuscated_payload(p, key),
        ..p
    }
}

/// The packet after the header of a client packet is read and its payload
/// is de-obfuscated.
pub open spec fn client_header_read(p: PacketView, key: Seq<u8>) -> PacketView {
    let body_size = (be_value(p.buffer, 2) - 5) as nat;
    let no = p.buffer[2] as i8;
    let plain = xor_prefix(p.buffer.skip(3), key, no as int, encrypt_len(body_size, no as int));
    PacketView {
        cmd: be_value(plain, 2) as u16,
        body_size,
        client_no: no,
        buffer: plain.skip(2),
    }
}

/// The buffer of a websocket packet sent to a client: the command in front.
pub open spec fn ws_header_written(p: PacketView) -> PacketView {
    PacketView { buffer: be16(p.cmd as nat) + p.buffer, ..p }
}

/// The packet after the command of a websocket packet is read.
pub open spec fn ws_header_read(p: PacketView) -> PacketView {
    PacketView {
        cmd: be_value(p.buffer, 2) as u16,
        body_size: (p.buffer.len() - 2) as nat,
        client_no: p.client_no,
        buffer: p.buffer.skip(2),
    }
}

/// The buffer of a websocket packet as a client sends it: the packet number,
/// then the obfuscated command and body.
pub open spec fn client_ws_header_written(p: PacketView, key: Seq<u8>) -> PacketView {
    PacketView { buffer: seq![p.client_no as u8] + obfuscated_payload(p, key), ..p }
}

/// The packet after the number of a websocket client packet is read and its
/// payload is de-obfuscated.
pub open spec fn client_ws_header_read(p: PacketView, key: Seq<u8>) -> PacketView {
    let body_size = (p.buffer.len() - 3) as nat;
    let no = p.buffer[0] as i8;
    let plain = xor_prefix(p.buffer.skip(1), key, no as int, encrypt_len(body_size, no as int));
    PacketView {
        cmd: be_value(plain, 2) as u16,
        body_size,
        client_no: no,
        buffer: plain.skip(2),
    }
}

/// What obfuscating a packet needs: a number within the key, a payload and a
/// key long enough for the bytes that are obfuscated.
pub open spec fn obfuscation_fits(p: PacketView, key: Seq<u8>) -> bool {
    &&& 0 <= p.client_no <= 64
    &&& encrypt_len(p.body_size, p.client_no as int) <= 2 + p.buffer.len()
    &&& p.client_no + encrypt_len(p.body_size, p.client_no as int) <= key.len()
}

/// Puts the length and command of a server packet in front of its body.
pub fn write_server_packet(pkt: &mut NetPacket)
    requires
        old(pkt).body_size + SERVER_INNER_HEADER_SIZE <= usize::MAX,
    ensures
        final(pkt)@ == long_header_written(old(pkt)@),
{
    write_long_header(pkt, SERVER_INNER_HEADER_SIZE);
}

/// Puts the length and command of a packet for a client in front of its
/// body.
pub fn write_client_packet(pkt: &mut NetPacket)
    requires
        old(pkt).body_size + TO_CLIENT_HEADER_SIZE <= usize::MAX,
    ensures
        final(pkt)@ == long_header_written(old(pkt)@),
{
    write_long_header(pkt, TO_CLIENT_HEADER_SIZE);
}

fn write_long_header(pkt: &mut NetPacket, header_size: usize)
    requires
        header_size == 6,
        old(pkt).body_size + header_size <= usize::MAX,
    ensures
        final(pkt)@ == long_header_written(old(pkt)@),
{
    let size = header_size + pkt.body_size;
    let size32 = ((size as u64) % 4294967296) as u32;
    let mut out: Vec<u8> = Vec::new();
    push_u32(&mut out, size32);
    push_u16(&mut out, pkt.cmd);
    append_bytes(&mut out, pkt.buffer.as_slice());
    pkt.buffer = out;
    assert(pkt.buffer@ =~= be32(((6 + old(pkt).body_size) % 4294967296) as nat) + be16(
        old(pkt).cmd as nat,
    ) + old(pkt).buffer@);
}

/// Reads the length and command of a server packet.
pub fn read_server_packet(pkt: &mut NetPacket)
    requires
        old(pkt).buffer@.len() >= SERVER_INNER_HEADER_SIZE,
        be_value(old(pkt).buffer@, 4) >= SERVER_INNER_HEADER_SIZE,
    ensures
        final(pkt)@ == long_header_read(old(pkt)@),
{
    read_long_header(pkt, SERVER_INNER_HEADER_SIZE);
}

/// Reads the length and command of a packet that a server sent to a client.
pub fn read_robot_packet(pkt: &mut NetPacket)
    requires
        old(pkt).buffer@.len() >= TO_CLIENT_HEADER_SIZE,
        be_value(old(pkt).buffer@, 4) >= TO_CLIENT_HEADER_SIZE,
    ensures
        final(pkt)@ == long_header_read(old(pkt)@),
{
    read_long_header(pkt, TO_CLIENT_HEADER_SIZE);
}

fn read_long_header(pkt: &mut NetPacket, header_size: usize)
    requires
        header_size == 6,
        old(pkt).buffer@.len() >= 6,
        be_value(old(pkt).buffer@, 4) >= 6,
    ensures
        final(pkt)@ == long_header_read(old(pkt)@),
{
    assert(old(pkt).buffer@.skip(0) =~= old(pkt).buffer@);
    let full_len = peek_leading_field(&pkt.buffer, 0, 4);
    let cmd = peek_leading_field(&pkt.buffer, 4, 2);
    proof {
        crate::framing::lemma_be_value_bound(old(pkt).buffer@.skip(4), 2);
    }
    let n = pkt.buffer.len();
    let rest = copy_range(&pkt.buffer, header_size, n);
    pkt.body_size = full_len - header_size;
    pkt.cmd = cmd as u16;
    pkt.buffer = rest;
    assert(pkt.buffer@ =~= old(pkt).buffer@.skip(6));
}

/// Puts the command in front of the body of a websocket packet for a
/// client.
pub fn write_client_ws_packet(pkt: &mut NetPacket)
    ensures
        final(pkt)@ == ws_header_written(old(pkt)@),
{
    let mut out: Vec<u8> = Vec::new();
    push_u16(&mut out, pkt.cmd);
    append_bytes(&mut out, pkt.buffer.as_slice());
    pkt.buffer = out;
}

/// Reads the command of a websocket packet that a server sent.
pub fn read_robot_ws_packet(pkt: &mut NetPacket)
    requires
        old(pkt).buffer@.len() >= TO_CLIENT_HEADER_SIZE_WS,
    ensures
        final(pkt)@ == ws_header_read(old(pkt)@),
{
    let n = pkt.buffer.len();
    let cmd = peek_leading_field(&pkt.buffer, 0, 2);
    assert(old(pkt).buffer@.skip(0) =~= old(pkt).buffer@);
    proof {
        crate::framing::lemma_be_value_bound(old(pkt).buffer@, 2);
    }
    let rest = copy_range(&pkt.buffer, TO_CLIENT_HEADER_SIZE_WS, n);
    pkt.body_size = n - TO_CLIENT_HEADER_SIZE_WS;
    pkt.cmd = cmd as u16;
    pkt.buffer = rest;
    assert(pkt.buffer@ =~= old(pkt).buffer@.skip(2));
}


/// The command and body of `pkt`, obfuscated with `key` at the packet's
/// number.
fn obfuscate_payload(pkt: &NetPacket, key: &str) -> (r: Vec<u8>)
    requires
        obfuscation_fits(pkt@, key.spec_bytes()),
    ensures
        r@ == obfuscated_payload(pkt@, key.spec_bytes()),
{
    let mut payload: Vec<u8> = Vec::new();
    push_u16(&mut payload, pkt.cmd);
    append_bytes(&mut payload, pkt.buffer.as_slice());
    encrypt_packet(&mut payload, pkt.body_size, key, pkt.client_no);
    payload
}

/// Puts the length, number and obfuscated command in front of the body of a
/// packet that a simulated client sends.
pub fn write_robot_packet(pkt: &mut NetPacket, key: &str)
    requires
        obfuscation_fits(old(pkt)@, key.spec_bytes()),
        old(pkt).body_size + FROM_CLIENT_HEADER_SIZE <= usize::MAX,
    ensures
        final(pkt)@ == client_header_written(old(pkt)@, key.spec_bytes()),
{
    let payload = obfuscate_payload(pkt, key);
    let size = FROM_CLIENT_HEADER_SIZE + pkt.body_size;
    let size16 = ((size as u64) % 65536) as u16;
    let mut out: Vec<u8> = Vec::new();
    push_u16(&mut out, size16);
    out.push(pkt.client_no as u8);
    append_bytes(&mut out, payload.as_slice());
    pkt.buffer = out;
    assert(pkt.buffer@ =~= be16(((5 + old(pkt).body_size) % 65536) as nat) + seq![
        old(pkt).client_no as u8,
    ] + obfuscated_payload(old(pkt)@, key.spec_bytes()));
}

/// What reading the header of a client packet needs: a whole header, a
/// length field that covers it, a number within the key, and a key long
/// enough for the bytes to de-obfuscate.
pub open spec fn client_header_readable(buf: Seq<u8>, key: Seq<u8>) -> bool {
    &&& buf.len() >= 5
    &&& be_value(buf, 2) >= 5
    &&& buf[2] <= 64
    &&& encrypt_len((be_value(buf, 2) - 5) as nat, buf[2] as int) <= buf.len() - 3
    &&& buf[2] + encrypt_len((be_value(buf, 2) - 5) as nat, buf[2] as int) <= key.len()
}

/// Reads the header of a packet from a client and de-obfuscates its command
/// and first body bytes.
pub fn read_client_packet(pkt: &mut NetPacket, key: &str)
    requires
        client_header_readable(old(pkt).buffer@, key.spec_bytes()),
    ensures
        final(pkt)@ == client_header_read(old(pkt)@, key.spec_bytes()),
{
    let ghost buf = old(pkt).buffer@;
    assert(buf.skip(0) =~= buf);
    let full_len = peek_leading_field(&pkt.buffer, 0, 2);
    let body_size = full_len - FROM_CLIENT_HEADER_SIZE;
    let no = pkt.buffer[2] as i8;
    let n = pkt.buffer.len();
    let mut rest = copy_range(&pkt.buffer, 3, n);
    assert(rest@ =~= buf.skip(3));
    decrypt_packet(&mut rest, body_size, key, no);
    assert(rest@.skip(0) =~= rest@);
    let cmd = peek_leading_field(&rest, 0, 2);
    proof {
        crate::framing::lemma_be_value_bound(rest@, 2);
    }
    let m = rest.len();
    let body = copy_range(&rest, 2, m);
    assert(body@ =~= rest@.skip(2));
    pkt.body_size = body_size;
    pkt.client_no = no;
    pkt.cmd = cmd as u16;
    pkt.buffer = body;
}

/// Puts the number and obfuscated command in front of the body of a
/// websocket packet that a simulated client sends.
pub fn write_robot_ws_packet(pkt: &mut NetPacket, key: &str)
    requires
        obfuscation_fits(old(pkt)@, key.spec_bytes()),
    ensures
        final(pkt)@ == client_ws_header_written(old(pkt)@, key.spec_bytes()),
{
    let payload = obfuscate_payload(pkt, key);
    let mut out: Vec<u8> = Vec::new();
    out.push(pkt.client_no as u8);
    append_bytes(&mut out, payload.as_slice());
    pkt.buffer = out;
    assert(pkt.buffer@ =~= seq![old(pkt).client_no as u8] + obfuscated_payload(
        old(pkt)@,
        key.spec_bytes(),
    ));
}

/// What reading the header of a websocket client packet needs.
pub open spec fn client_ws_header_readable(buf: Seq<u8>, key: Seq<u8>) -> bool {
    &&& buf.len() >= 3
    &&& buf[0] <= 64
    &&& encrypt_len((buf.len() - 3) as nat, buf[0] as int) <= buf.len() - 1
    &&& buf[0] + encrypt_len((buf.len() - 3) as nat, buf[0] as int) <= key.len()
}

/// Reads the number of a websocket packet from a client and de-obfuscates
/// its command and first body bytes.
pub fn read_client_ws_packet(pkt: &mut NetPacket, key: &str)
    requires
        client_ws_header_readable(old(pkt).buffer@, key.spec_bytes()),
    ensures
        final(pkt)@ == client_ws_header_read(old(pkt)@, key.spec_bytes()),
{
    let ghost buf = old(pkt).buffer@;
    let n = pkt.buffer.len();
    let body_size = n - FROM_CLIENT_HEADER_SIZE_WS;
    let no = pkt.buffer[0] as i8;
    let mut rest = copy_range(&pkt.buffer, 1, n);
    assert(rest@ =~= buf.skip(1));
    decrypt_packet(&mut rest, body_size, key, no);
    assert(rest@.skip(0) =~= rest@);
    let cmd = peek_leading_field(&rest, 0, 2);
    proof {
        crate::framing::lemma_be_value_bound(rest@, 2);
    }
    let m = rest.len();
    let body = copy_range(&rest, 2, m);
    assert(body@ =~= rest@.skip(2));
    pkt.body_size = body_size;
    pkt.client_no = no;
    pkt.cmd = cmd as u16;
    pkt.buffer = body;
}


/// A packet with a four byte length header (server to server, server to
/// client) reads back as it was written, when its length fits the field.
#[verifier::spinoff_prover]
#[verifier::rlimit(40)]
pub proof fn law_long_header_roundtrip(p: PacketView)
    requires
        6 + p.body_size < 4294967296,
    ensures
        long_header_written(p).buffer.len() >= 6,
        be_value(long_header_written(p).buffer, 4) >= 6,
        long_header_read(long_header_written(p)) == p,
{
    let w = long_header_written(p).buffer;
    let v = (6 + p.body_size) as nat;
    assert(w =~= be32(v) + (be16(p.cmd as nat) + p.buffer));
    lemma_be32_value(v, be16(p.cmd as nat) + p.buffer);
    assert(w.skip(4) =~= be16(p.cmd as nat) + p.buffer);
    lemma_be16_value(p.cmd as nat, p.buffer);
    assert(w.skip(6) =~= p.buffer);
}

/// A client packet that a simulated client writes with a key reads back,
/// de-obfuscated with the same key, as it was written, when its length fits
/// the two byte field.
pub proof fn law_client_header_roundtrip(p: PacketView, key: Seq<u8>)
    requires
        obfuscation_fits(p, key),
        5 + p.body_size < 65536,
    ensures
        client_header_readable(client_header_written(p, key).buffer, key),
        client_header_read(client_header_written(p, key), key) == p,
{
    let w = client_header_written(p, key).buffer;
    let payload = obfuscated_payload(p, key);
    let v = (5 + p.body_size) as nat;
    let no = p.client_no;
    let n = encrypt_len(p.body_size, no as int);
    assert(w =~= be16(v) + (seq![no as u8] + payload));
    lemma_be16_value(v, seq![no as u8] + payload);
    assert(w[2] == no as u8);
    assert((no as u8) as i8 == no);
    assert(w.skip(3) =~= payload);
    let plain = xor_prefix(payload, key, no as int, n);
    law_xor_involution(be16(p.cmd as nat) + p.buffer, key, no as int, n);
    assert(plain == be16(p.cmd as nat) + p.buffer);
    lemma_be16_value(p.cmd as nat, p.buffer);
    assert(plain.skip(2) =~= p.buffer);
}

/// A websocket packet for a client reads back as it was written.
pub proof fn law_ws_header_roundtrip(p: PacketView)
    requires
        p.body_size == p.buffer.len(),
    ensures
        ws_header_written(p).buffer.len() >= 2,
        ws_header_read(ws_header_written(p)) == p,
{
    let w = ws_header_written(p).buffer;
    lemma_be16_value(p.cmd as nat, p.buffer);
    assert(w.skip(2) =~= p.buffer);
}

/// A websocket packet that a simulated client writes with a key reads back,
/// de-obfuscated with the same key, as it was written.
pub proof fn law_client_ws_header_roundtrip(p: PacketView, key: Seq<u8>)
    requires
        obfuscation_fits(p, key),
        p.body_size == p.buffer.len(),
    ensures
        client_ws_header_readable(client_ws_header_written(p, key).buffer, key),
        client_ws_header_read(client_ws_header_written(p, key), key) == p,
{
    let w = client_ws_header_written(p, key).buffer;
    let payload = obfuscated_payload(p, key);
    let no = p.client_no;
    let n = encrypt_len(p.body_size, no as int);
    assert(w[0] == no as u8);
    assert((no as u8) as i8 == no);
    assert(w.skip(1) =~= payload);
    let plain = xor_prefix(payload, key, no as int, n);
    law_xor_involution(be16(p.cmd as nat) + p.buffer, key, no as int, n);
    assert(plain == be16(p.cmd as nat) + p.buffer);
    lemma_be16_value(p.cmd as nat, p.buffer);
    assert(plain.skip(2) =~= p.buffer);
}


/// The obfuscation state of a connection: the packet numbers seen last and
/// the key.
pub struct EncryptData {
    pub no_list: Vec<i8>,
    pub encrypt_key: String,
}

/// The plain value of an [`EncryptData`]: remembered numbers and key.
pub open spec fn entry_view(e: EncryptData) -> (Seq<i8>, Seq<char>) {
    (e.no_list@, e.encrypt_key@)
}

/// The key as bytes.
pub open spec fn key_bytes(key: Seq<char>) -> Seq<u8> {
    vstd::utf8::encode_utf8(key)
}

/// The remembered numbers after `no` is remembered: appended, and the
/// oldest dropped when more than [`SAVED_NO_COUNT`] would be kept.
pub open spec fn remembered(list: Seq<i8>, no: i8) -> Seq<i8> {
    let l = list.push(no);
    if l.len() > 1 {
        l.drop_first()
    } else {
        l
    }
}

/// A packet number is accepted when it lies within the key and was not
/// seen last.
pub open spec fn accepts_no(list: Seq<i8>, no: i8) -> bool {
    no < 64 && !list.contains(no)
}

fn remember_no(encrypt: &mut EncryptData, no: i8)
    ensures
        final(encrypt).no_list@ == remembered(old(encrypt).no_list@, no),
        final(encrypt).encrypt_key@ == old(encrypt).encrypt_key@,
{
    encrypt.no_list.push(no);
    if encrypt.no_list.len() > SAVED_NO_COUNT {
        encrypt.no_list.remove(0);
        assert(encrypt.no_list@ =~= old(encrypt).no_list@.push(no).drop_first());
    }
}

/// Checks a packet number from a client: it must lie within the key and
/// differ from the numbers seen last. An accepted number is remembered.
pub fn add_packet_no(encrypt: &mut EncryptData, no: i8) -> (r: bool)
    ensures
        r == accepts_no(old(encrypt).no_list@, no),
        r ==> final(encrypt).no_list@ == remembered(old(encrypt).no_list@, no),
        !r ==> final(encrypt).no_list@ == old(encrypt).no_list@,
        final(encrypt).encrypt_key@ == old(encrypt).encrypt_key@,
{
    if no >= ENCRYPT_KEY_LEN as i8 {
        return false;
    }
    let mut i: usize = 0;
    while i < encrypt.no_list.len()
        invariant
            i <= encrypt.no_list@.len(),
            forall|j: int| 0 <= j < i ==> encrypt.no_list@[j] != no,
        decreases encrypt.no_list.len() - i,
    {
        if encrypt.no_list[i] == no {
            return false;
        }
        i = i + 1;
    }
    remember_no(encrypt, no);
    true
}

/// Picks a random packet number of `[0, 63)` that differs from the numbers
/// used last, and remembers it.
pub fn rand_packet_no(encrypt: &mut EncryptData, hd: ConnId) -> (r: i8)
    ensures
        0 <= r < 63,
        (exists|w: int| 0 <= w < 63 && crate::rand_bytes::free_at(w, old(encrypt).no_list@))
            ==> !old(encrypt).no_list@.contains(r),
        final(encrypt).no_list@ == remembered(old(encrypt).no_list@, r),
        final(encrypt).encrypt_key@ == old(encrypt).encrypt_key@,
{
    let no = rand_between_exclusive_i8(0, (ENCRYPT_KEY_LEN - 1) as i8, &encrypt.no_list);
    remember_no(encrypt, no);
    no
}

/// The obfuscation state of each connection, by connection handle.
#[verifier::external_body]
pub struct EncryptTable {
    map: hashbrown::HashMap<usize, EncryptData>,
}

/// What an [`EncryptTable`] holds: for each connection handle, the plain
/// value of its obfuscation state.
pub uninterp spec fn encrypt_table_entries(t: EncryptTable) -> Map<usize, (Seq<i8>, Seq<char>)>;

/// A table without entries.
pub open spec fn no_entries() -> Map<usize, (Seq<i8>, Seq<char>)> {
    Map::empty()
}

/// `hashbrown::HashMap::new`: an empty map.
#[verifier::external_body]
fn table_new() -> (table: EncryptTable)
    ensures
        encrypt_table_entries(table) == no_entries(),
{
    EncryptTable { map: hashbrown::HashMap::new() }
}

/// `hashbrown::HashMap::insert`: maps `k` to `v` and hands back the value
/// that `k` had.
#[verifier::external_body]
fn table_insert(t: &mut EncryptTable, k: usize, v: EncryptData) -> (r: Option<EncryptData>)
    ensures
        encrypt_table_entries(*final(t)) == encrypt_table_entries(*old(t)).insert(k, entry_view(v)),
        match r {
            Some(o) => encrypt_table_entries(*old(t)).contains_key(k) && entry_view(o)
                == encrypt_table_entries(*old(t))[k],
            None => !encrypt_table_entries(*old(t)).contains_key(k),
        },
{
    t.map.insert(k, v)
}

/// `hashbrown::HashMap::remove`: takes `k` out and hands back its value.
#[verifier::external_body]
fn table_remove(t: &mut EncryptTable, k: usize) -> (r: Option<EncryptData>)
    ensures
        encrypt_table_entries(*final(t)) == encrypt_table_entries(*old(t)).remove(k),
        match r {
            Some(o) => encrypt_table_entries(*old(t)).contains_key(k) && entry_view(o)
                == encrypt_table_entries(*old(t))[k],
            None => !encrypt_table_entries(*old(t)).contains_key(k),
        },
{
    t.map.remove(&k)
}

impl EncryptTable {
    /// An empty table.
    pub fn new() -> (t: EncryptTable)
        ensures
            encrypt_table_entries(t) == no_entries(),
    {
        table_new()
    }

    /// Sets the obfuscation state of connection `hd`; hands back the state
    /// it replaced.
    pub fn insert(&mut self, hd: ConnId, data: EncryptData) -> (r: Option<EncryptData>)
        ensures
            encrypt_table_entries(*final(self)) == encrypt_table_entries(*old(self)).insert(
                hd.id,
                entry_view(data),
            ),
            match r {
                Some(o) => encrypt_table_entries(*old(self)).contains_key(hd.id) && entry_view(o)
                    == encrypt_table_entries(*old(self))[hd.id],
                None => !encrypt_table_entries(*old(self)).contains_key(hd.id),
            },
    {
        table_insert(self, hd.id, data)
    }

    /// Drops the obfuscation state of connection `hd` and hands it back.
    pub fn remove(&mut self, hd: ConnId) -> (r: Option<EncryptData>)
        ensures
            encrypt_table_entries(*final(self)) == encrypt_table_entries(*old(self)).remove(hd.id),
            match r {
                Some(o) => encrypt_table_entries(*old(self)).contains_key(hd.id) && entry_view(o)
                    == encrypt_table_entries(*old(self))[hd.id],
                None => !encrypt_table_entries(*old(self)).contains_key(hd.id),
            },
    {
        table_remove(self, hd.id)
    }
}

/// A client packet is complete when it holds its header and its length
/// field gives its own length; a websocket client packet when it holds its
/// header.
pub open spec fn packet_complete(packet_type: PacketType, buf: Seq<u8>) -> bool {
    match packet_type {
        PacketType::Client => buf.len() >= 5 && be_value(buf, 2) == buf.len(),
        _ => buf.len() >= 3,
    }
}

/// Checks that a client packet holds one whole packet.
pub fn check_packet(packet_type: PacketType, buf: &Vec<u8>) -> (r: bool)
    ensures
        r == packet_complete(packet_type, buf@),
{
    match packet_type {
        PacketType::Client => {
            if buf.len() < FROM_CLIENT_HEADER_SIZE {
                return false;
            }
            assert(buf@.skip(0) =~= buf@);
            peek_leading_field(buf, 0, 2) == buf.len()
        },
        _ => buf.len() >= FROM_CLIENT_HEADER_SIZE_WS,
    }
}

/// What decoding a packet of `packet_type` needs of its bytes and of the
/// connection's key: a whole header for the unobfuscated types; for client
/// types, when the connection has a key and the packet is complete, a packet
/// number within the key and a key of at least [`ENCRYPT_KEY_LEN`] bytes.
pub open spec fn decodable(
    packet_type: PacketType,
    hd: ConnId,
    buf: Seq<u8>,
    entries: Map<usize, (Seq<i8>, Seq<char>)>,
) -> bool {
    match packet_type {
        PacketType::Server | PacketType::Robot => buf.len() >= 6 && be_value(buf, 4) >= 6,
        PacketType::RobotWs => buf.len() >= 2,
        PacketType::Client => entries.contains_key(hd.id) && packet_complete(packet_type, buf) ==> {
            &&& buf[2] <= 64
            &&& key_bytes(entries[hd.id].1).len() >= 64
        },
        PacketType::ClientWs => entries.contains_key(hd.id) && packet_complete(packet_type, buf)
            ==> {
            &&& buf[0] <= 64
            &&& key_bytes(entries[hd.id].1).len() >= 64
        },
        PacketType::Redis => false,
    }
}

/// The header of a packet of `packet_type`, read with `key`.
pub open spec fn header_read(packet_type: PacketType, p: PacketView, key: Seq<u8>) -> PacketView {
    match packet_type {
        PacketType::Client => client_header_read(p, key),
        PacketType::ClientWs => client_ws_header_read(p, key),
        PacketType::RobotWs => ws_header_read(p),
        _ => long_header_read(p),
    }
}

/// Decodes the header of a received packet. Server and simulated client
/// packets always decode. A client packet decodes when its connection has
/// obfuscation state, the packet is complete, and its number is accepted;
/// the accepted number is then remembered. On failure the packet and the
/// table are left as they were, but for a packet whose number was refused,
/// which has been read already.
pub fn decode_packet(
    packet_type: PacketType,
    hd: ConnId,
    pkt: &mut NetPacket,
    encrypt_table: &mut EncryptTable,
) -> (r: bool)
    requires
        decodable(packet_type, hd, old(pkt).buffer@, encrypt_table_entries(*old(encrypt_table))),
    ensures
        ({
            let e = encrypt_table_entries(*old(encrypt_table));
            let e2 = encrypt_table_entries(*final(encrypt_table));
            match packet_type {
                PacketType::Client | PacketType::ClientWs => {
                    if !e.contains_key(hd.id) || !packet_complete(packet_type, old(pkt).buffer@) {
                        &&& !r
                        &&& final(pkt)@ == old(pkt)@
                        &&& e2 == e
                    } else {
                        let key = e[hd.id].1;
                        let no = final(pkt).client_no;
                        &&& final(pkt)@ == header_read(packet_type, old(pkt)@, key_bytes(key))
                        &&& r == accepts_no(e[hd.id].0, no)
                        &&& e2 == if r {
                            e.insert(hd.id, (remembered(e[hd.id].0, no), key))
                        } else {
                            e
                        }
                    }
                },
                _ => {
                    &&& r
                    &&& final(pkt)@ == header_read(packet_type, old(pkt)@, Seq::empty())
                    &&& e2 == e
                },
            }
        }),
{
    match packet_type {
        PacketType::Client | PacketType::ClientWs => {
            let ghost e = encrypt_table_entries(*encrypt_table);
            if !check_packet(packet_type, &pkt.buffer) {
                return false;
            }
            match table_remove(encrypt_table, hd.id) {
                None => false,
                Some(mut encrypt) => {
                    let ghost buf = pkt.buffer@;
                    let ghost kb = key_bytes(encrypt.encrypt_key@);
                    let key = encrypt.encrypt_key.as_str();
                    proof {
                        if packet_type == PacketType::Client {
                            assert(buf.len() >= 5 && be_value(buf, 2) == buf.len());
                            assert(client_header_readable(buf, kb));
                        } else {
                            assert(client_ws_header_readable(buf, kb));
                        }
                    }
                    if packet_type == PacketType::Client {
                        read_client_packet(pkt, key);
                    } else {
                        read_client_ws_packet(pkt, key);
                    }
                    let ok = add_packet_no(&mut encrypt, pkt.client_no);
                    let _ = table_insert(encrypt_table, hd.id, encrypt);
                    proof {
                        let e2 = encrypt_table_entries(*encrypt_table);
                        if ok {
                            assert(e2 =~= e.insert(hd.id, (remembered(e[hd.id].0, pkt.client_no), e[hd.id].1)));
                        } else {
                            assert(e2 =~= e);
                        }
                    }
                    ok
                },
            }
        },
        PacketType::Server => {
            read_server_packet(pkt);
            true
        },
        PacketType::Robot => {
            read_robot_packet(pkt);
            true
        },
        PacketType::RobotWs => {
            read_robot_ws_packet(pkt);
            true
        },
        PacketType::Redis => false,
    }
}


/// What encoding a packet of `packet_type` needs: a body size whose header
/// fits in a `usize`; for simulated client types, when the connection has
/// a key, a key of at least [`ENCRYPT_KEY_LEN`] bytes and a buffer that
/// holds the body bytes to obfuscate.
pub open spec fn encodable(
    packet_type: PacketType,
    hd: ConnId,
    p: PacketView,
    entries: Map<usize, (Seq<i8>, Seq<char>)>,
) -> bool {
    match packet_type {
        PacketType::Server | PacketType::Client => p.body_size + 6 <= usize::MAX,
        PacketType::ClientWs => true,
        PacketType::Robot | PacketType::RobotWs => {
            &&& p.body_size + 5 <= usize::MAX
            &&& entries.contains_key(hd.id) ==> {
                &&& key_bytes(entries[hd.id].1).len() >= 64
                &&& encrypt_len(p.body_size, 0) <= 2 + p.buffer.len()
            }
        },
        PacketType::Redis => false,
    }
}

/// The header of a packet of `packet_type`, written with `key`.
pub open spec fn header_written(packet_type: PacketType, p: PacketView, key: Seq<u8>) -> PacketView {
    match packet_type {
        PacketType::Robot => client_header_written(p, key),
        PacketType::RobotWs => client_ws_header_written(p, key),
        PacketType::ClientWs => ws_header_written(p),
        _ => long_header_written(p),
    }
}

/// Encodes the header of a packet to send. Server and client packets always
/// encode. A simulated client packet encodes when its connection has
/// obfuscation state: it gets a fresh random number, which is remembered,
/// and is obfuscated with the connection's key.
pub fn encode_packet(
    packet_type: PacketType,
    hd: ConnId,
    pkt: &mut NetPacket,
    encrypt_table: &mut EncryptTable,
) -> (r: bool)
    requires
        encodable(packet_type, hd, old(pkt)@, encrypt_table_entries(*old(encrypt_table))),
    ensures
        ({
            let e = encrypt_table_entries(*old(encrypt_table));
            let e2 = encrypt_table_entries(*final(encrypt_table));
            match packet_type {
                PacketType::Robot | PacketType::RobotWs => {
                    if !e.contains_key(hd.id) {
                        &&& !r
                        &&& final(pkt)@ == old(pkt)@
                        &&& e2 == e
                    } else {
                        let key = e[hd.id].1;
                        let no = final(pkt).client_no;
                        &&& r
                        &&& 0 <= no < 63
                        &&& (exists|w: int| 0 <= w < 63 && crate::rand_bytes::free_at(w, e[hd.id].0))
                            ==> !e[hd.id].0.contains(no)
                        &&& final(pkt)@ == header_written(
                            packet_type,
                            PacketView { client_no: no, ..old(pkt)@ },
                            key_bytes(key),
                        )
                        &&& e2 == e.insert(hd.id, (remembered(e[hd.id].0, no), key))
                    }
                },
                _ => {
                    &&& r
                    &&& final(pkt)@ == header_written(packet_type, old(pkt)@, Seq::empty())
                    &&& e2 == e
                },
            }
        }),
{
    match packet_type {
        PacketType::Robot | PacketType::RobotWs => {
            let ghost e = encrypt_table_entries(*encrypt_table);
            match table_remove(encrypt_table, hd.id) {
                None => false,
                Some(mut encrypt) => {
                    let no = rand_packet_no(&mut encrypt, hd);
                    pkt.client_no = no;
                    let key = encrypt.encrypt_key.as_str();
                    if packet_type == PacketType::Robot {
                        write_robot_packet(pkt, key);
                    } else {
                        write_robot_ws_packet(pkt, key);
                    }
                    let _ = table_insert(encrypt_table, hd.id, encrypt);
                    proof {
                        let e2 = encrypt_table_entries(*encrypt_table);
                        assert(e2 =~= e.insert(hd.id, (remembered(e[hd.id].0, no), e[hd.id].1)));
                    }
                    true
                },
            }
        },
        PacketType::Server => {
            write_server_packet(pkt);
            true
        },
        PacketType::Client => {
            write_client_packet(pkt);
            true
        },
        PacketType::ClientWs => {
            write_client_ws_packet(pkt);
            true
        },
        PacketType::Redis => false,
    }
}


/// A packet number that was just accepted is refused when it comes again
/// at once: a client packet cannot be replayed right away.
pub proof fn law_packet_no_not_replayed(list: Seq<i8>, no: i8)
    requires
        accepts_no(list, no),
    ensures
        !accepts_no(remembered(list, no), no),
{
    let l = list.push(no);
    let r = remembered(list, no);
    assert(r[r.len() - 1] == no);
}


/// The packet type of the side that reads what a side of type `t` writes.
pub open spec fn reading_side(t: PacketType) -> PacketType {
    match t {
        PacketType::Client => PacketType::Robot,
        PacketType::Robot => PacketType::Client,
        PacketType::ClientWs => PacketType::RobotWs,
        PacketType::RobotWs => PacketType::ClientWs,
        _ => t,
    }
}

/// What writing a header of type `t` needs for it to read back: a length
/// that fits the length field, and for obfuscated types a number and key
/// that fit; a websocket header carries no length, so the body size must be
/// the buffer's.
pub open spec fn header_fits(t: PacketType, p: PacketView, key: Seq<u8>) -> bool {
    match t {
        PacketType::Server | PacketType::Client => 6 + p.body_size < 4294967296,
        PacketType::Robot => obfuscation_fits(p, key) && 5 + p.body_size < 65536,
        PacketType::ClientWs => p.body_size == p.buffer.len(),
        PacketType::RobotWs => obfuscation_fits(p, key) && p.body_size == p.buffer.len(),
        PacketType::Redis => false,
    }
}

/// What reading a header of type `t` needs of the bytes.
pub open spec fn header_readable(t: PacketType, buf: Seq<u8>, key: Seq<u8>) -> bool {
    match t {
        PacketType::Client => client_header_readable(buf, key),
        PacketType::ClientWs => client_ws_header_readable(buf, key),
        PacketType::RobotWs => buf.len() >= 2,
        _ => buf.len() >= 6 && be_value(buf, 4) >= 6,
    }
}

/// Whatever one side encodes, the other side decodes back: for every packet
/// type, the header written by [`encode_packet`] is readable by the reading
/// side, reads back as the packet that was written, and a client packet
/// whose body fills its buffer passes the completeness check of
/// [`decode_packet`].
pub proof fn law_encode_decode_roundtrip(t: PacketType, p: PacketView, key: Seq<u8>)
    requires
        header_fits(t, p, key),
    ensures
        header_readable(reading_side(t), header_written(t, p, key).buffer, key),
        header_read(reading_side(t), header_written(t, p, key), key) == p,
        p.body_size == p.buffer.len() && (reading_side(t) == PacketType::Client
            || reading_side(t) == PacketType::ClientWs) ==> packet_complete(
            reading_side(t),
            header_written(t, p, key).buffer,
        ),
{
    match t {
        PacketType::Server | PacketType::Client => {
            law_long_header_roundtrip(p);
        },
        PacketType::Robot => {
            law_client_header_roundtrip(p, key);
            let w = header_written(t, p, key).buffer;
            assert(w =~= be16(((5 + p.body_size) % 65536) as nat) + (seq![p.client_no as u8]
                + obfuscated_payload(p, key)));
            lemma_be16_value(((5 + p.body_size) % 65536) as nat, seq![p.client_no as u8]
                + obfuscated_payload(p, key));
        },
        PacketType::ClientWs => {
            law_ws_header_roundtrip(p);
        },
        PacketType::RobotWs => {
            law_client_ws_header_roundtrip(p, key);
        },
        PacketType::Redis => {},
    }
}

} // verus!
