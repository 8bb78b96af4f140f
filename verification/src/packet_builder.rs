//! Reassembly of length-prefixed packets from the chunks that a connection
//! reads, for plain TCP streams and for websocket streams.

use vstd::prelude::*;
use crate::framing::{be_value, split_frames, FrameSplit, MAX_PACKET_SIZE, append_bytes, copy_range, peek_leading_field, lemma_split_append};

verus! {

/// What one call of a builder produced.
pub enum PacketResult {
    /// The packets completed by this input, in stream order.
    Ready(Vec<Vec<u8>>),
    /// A length field was zero or above the limit; the stream is unusable.
    Abort(String),
}

/// State of the reassembly between and during calls.
pub enum PacketBuilderState {
    /// Nothing is pending.
    Null,
    /// Waiting for (the rest of) a length field.
    Leading,
    /// A length field was read: the full length of the packet.
    Data(usize),
    /// The pending bytes are exactly one packet.
    Complete,
    /// The pending bytes hold one packet of the given length and more.
    CompleteTailing(usize),
    /// A bad length field was seen; no packet is produced any more.
    Abort(usize),
}

/// Splits the byte stream of one connection into packets.
pub struct PacketBuilder {
    state: PacketBuilderState,
    pending: Vec<u8>,
}

/// The bytes kept for the next call and whether the stream was aborted.
pub struct BuilderView {
    pub pending: Seq<u8>,
    pub aborted: bool,
}

impl View for PacketBuilder {
    type V = BuilderView;

    closed spec fn view(&self) -> BuilderView {
        BuilderView { pending: self.pending@, aborted: self.state is Abort }
    }
}

/// Termination measure of the reassembly loop.
pub open spec fn state_rank(s: PacketBuilderState) -> int {
    match s {
        PacketBuilderState::Null => 0,
        PacketBuilderState::Leading => 2,
        PacketBuilderState::Data(_) => 1,
        PacketBuilderState::Complete => 0,
        PacketBuilderState::CompleteTailing(_) => 0,
        PacketBuilderState::Abort(_) => 0,
    }
}

/// What the state claims of the unprocessed bytes `rem`.
pub open spec fn state_agrees(s: PacketBuilderState, rem: Seq<u8>, lfs: nat) -> bool {
    match s {
        PacketBuilderState::Null => rem.len() == 0,
        PacketBuilderState::Leading => true,
        PacketBuilderState::Data(len) => {
            &&& lfs <= rem.len()
            &&& len == be_value(rem, lfs)
            &&& 0 < len <= MAX_PACKET_SIZE
        },
        PacketBuilderState::Complete => {
            &&& lfs <= rem.len()
            &&& rem.len() == be_value(rem, lfs)
            &&& 0 < rem.len() <= MAX_PACKET_SIZE
        },
        PacketBuilderState::CompleteTailing(len) => {
            &&& lfs <= rem.len()
            &&& len == be_value(rem, lfs)
            &&& 0 < len < rem.len()
            &&& len <= MAX_PACKET_SIZE
        },
        PacketBuilderState::Abort(len) => {
            &&& lfs <= rem.len()
            &&& len == be_value(rem, lfs)
            &&& (len == 0 || len > MAX_PACKET_SIZE)
        },
    }
}

/// The frames of `s` as the result that a builder reports.
pub open spec fn frames_result(r: PacketResult, sp: FrameSplit) -> bool {
    if sp.overflow {
        is_overflow_abort(r)
    } else {
        r matches PacketResult::Ready(pkts) && pkts@.map_values(|v: Vec<u8>| v@) == sp.frames
    }
}

/// The result that reports an aborted stream.
pub open spec fn is_overflow_abort(r: PacketResult) -> bool {
    r matches PacketResult::Abort(msg) && msg@ == "overflow"@
}

/// The result that reports an aborted websocket stream.
pub open spec fn is_ws_overflow_abort(r: WsPacketResult) -> bool {
    r matches WsPacketResult::Abort(msg) && msg@ == "overflow"@
}

/// The frames of a websocket stream as the result that a builder reports.
pub open spec fn ws_frames_result(r: WsPacketResult, sp: FrameSplit) -> bool {
    if sp.overflow {
        is_ws_overflow_abort(r)
    } else {
        r matches WsPacketResult::Ready(pkts) && pkts@.map_values(|v: Vec<u8>| v@) == sp.frames
    }
}

/// Shared reassembly loop of both builders.
fn split_stream(state: &mut PacketBuilderState, pending: &mut Vec<u8>, input: &[u8], lfs: u8) -> (r: PacketResult)
    requires
        lfs == 2 || lfs == 4,
        !(*old(state) is Abort),
    ensures
        frames_result(r, split_frames(old(pending)@ + input@, lfs as nat)),
        final(pending)@ == split_frames(old(pending)@ + input@, lfs as nat).rest,
        *final(state) is Abort <==> split_frames(old(pending)@ + input@, lfs as nat).overflow,
        !split_frames(old(pending)@ + input@, lfs as nat).overflow ==> (final(pending)@.len() == 0 <==> *final(state) is Null),
{
    let ghost total = pending@ + input@;
    let mut buf: Vec<u8> = Vec::new();
    append_bytes(&mut buf, pending.as_slice());
    append_bytes(&mut buf, input);
    assert(buf@ =~= total);
    let mut pos: usize = 0;
    let mut pkt_list: Vec<Vec<u8>> = Vec::new();
    let mut st = PacketBuilderState::Leading;
    assert(buf@.skip(0) =~= buf@);
    loop
        invariant
            buf@ == total,
            lfs == 2 || lfs == 4,
            pos <= buf@.len(),
            state_agrees(st, buf@.skip(pos as int), lfs as nat),
            ({
                let rs = split_frames(buf@.skip(pos as int), lfs as nat);
                split_frames(total, lfs as nat) == FrameSplit {
                    frames: pkt_list@.map_values(|v: Vec<u8>| v@) + rs.frames,
                    rest: rs.rest,
                    overflow: rs.overflow,
                }
            }),
        ensures
            split_frames(buf@.skip(pos as int), lfs as nat).frames.len() == 0,
            split_frames(buf@.skip(pos as int), lfs as nat).rest == buf@.skip(pos as int),
            (st is Abort) <==> split_frames(buf@.skip(pos as int), lfs as nat).overflow,
            !(st is Abort) ==> (st is Null <==> pos == buf@.len()),
        decreases (buf@.len() - pos) * 3 + state_rank(st),
    {
        let ghost rem = buf@.skip(pos as int);
        match st {
            PacketBuilderState::Null => {
                break;
            },
            PacketBuilderState::Leading => {
                if buf.len() - pos >= lfs as usize {
                    let pkt_full_len = peek_leading_field(&buf, pos, lfs);
                    if pkt_full_len == 0 || pkt_full_len > MAX_PACKET_SIZE {
                        st = PacketBuilderState::Abort(pkt_full_len);
                    } else {
                        st = PacketBuilderState::Data(pkt_full_len);
                    }
                } else {
                    if pos == buf.len() {
                        st = PacketBuilderState::Null;
                    }
                    break;
                }
            },
            PacketBuilderState::Data(pkt_full_len) => {
                let remain = buf.len() - pos;
                if remain > pkt_full_len {
                    st = PacketBuilderState::CompleteTailing(pkt_full_len);
                } else if remain == pkt_full_len {
                    st = PacketBuilderState::Complete;
                } else {
                    break;
                }
            },
            PacketBuilderState::Complete => {
                let ready_pkt = copy_range(&buf, pos, buf.len());
                let ghost old_list = pkt_list@.map_values(|v: Vec<u8>| v@);
                pkt_list.push(ready_pkt);
                assert(rem.take(rem.len() as int) =~= ready_pkt@);
                assert(pkt_list@.map_values(|v: Vec<u8>| v@) =~= old_list.push(rem.take(rem.len() as int)));
                assert(rem.skip(rem.len() as int) =~= buf@.skip(buf@.len() as int));
                let ghost rs = split_frames(rem.skip(rem.len() as int), lfs as nat);
                assert(old_list + (seq![rem.take(rem.len() as int)] + rs.frames)
                    =~= pkt_list@.map_values(|v: Vec<u8>| v@) + rs.frames);
                pos = buf.len();
                st = PacketBuilderState::Null;
                break;
            },
            PacketBuilderState::CompleteTailing(pkt_full_len) => {
                let n = buf.len();
                assert(pos + pkt_full_len < n);
                let ready_pkt = copy_range(&buf, pos, pos + pkt_full_len);
                let ghost old_list = pkt_list@.map_values(|v: Vec<u8>| v@);
                pkt_list.push(ready_pkt);
                assert(rem.take(pkt_full_len as int) =~= ready_pkt@);
                assert(pkt_list@.map_values(|v: Vec<u8>| v@) =~= old_list.push(rem.take(pkt_full_len as int)));
                assert(rem.skip(pkt_full_len as int) =~= buf@.skip(pos + pkt_full_len));
                let ghost rs = split_frames(rem.skip(pkt_full_len as int), lfs as nat);
                assert(old_list + (seq![rem.take(pkt_full_len as int)] + rs.frames)
                    =~= pkt_list@.map_values(|v: Vec<u8>| v@) + rs.frames);
                pos = pos + pkt_full_len;
                st = PacketBuilderState::Leading;
            },
            PacketBuilderState::Abort(_) => {
                break;
            },
        }
    }
    let ghost rem = buf@.skip(pos as int);
    let tail = copy_range(&buf, pos, buf.len());
    assert(tail@ =~= rem);
    let is_abort = match st {
        PacketBuilderState::Abort(_) => true,
        _ => false,
    };
    if is_abort {
        assert(split_frames(rem, lfs as nat).overflow);
        *state = st;
        *pending = tail;
        PacketResult::Abort("overflow".to_owned())
    } else {
        assert(pkt_list@.map_values(|v: Vec<u8>| v@) + Seq::<Seq<u8>>::empty() =~= pkt_list@.map_values(|v: Vec<u8>| v@));
        if pos == buf.len() {
            *state = PacketBuilderState::Null;
        } else {
            *state = PacketBuilderState::Leading;
        }
        *pending = tail;
        PacketResult::Ready(pkt_list)
    }
}

impl PacketBuilder {
    /// A builder with nothing pending.
    pub fn new() -> (r: Self)
        ensures
            r@.pending == Seq::<u8>::empty(),
            !r@.aborted,
    {
        PacketBuilder { state: PacketBuilderState::Null, pending: Vec::new() }
    }

    /// Adds `input` to the stream and returns the packets that it completes:
    /// the complete frames of the pending bytes followed by `input`, whose
    /// length fields have `leading_field_size` bytes. The bytes after the
    /// last complete frame are kept for the next call. A length field of
    /// zero or above [`MAX_PACKET_SIZE`] aborts the stream: this call and
    /// every later one report `Abort("overflow")`.
    pub fn build_once(&mut self, input: &[u8], leading_field_size: u8) -> (r: PacketResult)
        requires
            leading_field_size == 2 || leading_field_size == 4,
        ensures
            old(self)@.aborted ==> final(self)@ == old(self)@ && is_overflow_abort(r),
            !old(self)@.aborted ==> ({
                let sp = split_frames(old(self)@.pending + input@, leading_field_size as nat);
                &&& frames_result(r, sp)
                &&& final(self)@.pending == sp.rest
                &&& final(self)@.aborted == sp.overflow
            }),
    {
        if let PacketBuilderState::Abort(_) = self.state {
            return PacketResult::Abort("overflow".to_owned());
        }
        split_stream(&mut self.state, &mut self.pending, input, leading_field_size)
    }
}

/// Splits the byte stream of one websocket connection into packets.
pub struct WsPacketBuilder {
    state: PacketBuilderState,
    pending: Vec<u8>,
}

/// What one call of a websocket builder produced.
pub enum WsPacketResult {
    /// The packets completed by this input, in stream order.
    Ready(Vec<Vec<u8>>),
    /// A length field was zero or above the limit; the stream is unusable.
    Abort(String),
}

impl View for WsPacketBuilder {
    type V = BuilderView;

    closed spec fn view(&self) -> BuilderView {
        BuilderView { pending: self.pending@, aborted: self.state is Abort }
    }
}

impl WsPacketBuilder {
    /// A builder with nothing pending.
    pub fn new() -> (r: Self)
        ensures
            r@.pending == Seq::<u8>::empty(),
            !r@.aborted,
    {
        WsPacketBuilder { state: PacketBuilderState::Null, pending: Vec::new() }
    }

    /// Same splitting as [`PacketBuilder::build_once`], for a websocket
    /// connection: every byte of the input is either in a returned packet
    /// or kept pending.
    pub fn build_once(&mut self, input: &[u8], leading_field_size: u8) -> (r: WsPacketResult)
        requires
            leading_field_size == 2 || leading_field_size == 4,
        ensures
            old(self)@.aborted ==> final(self)@ == old(self)@ && is_ws_overflow_abort(r),
            !old(self)@.aborted ==> ({
                let sp = split_frames(old(self)@.pending + input@, leading_field_size as nat);
                &&& ws_frames_result(r, sp)
                &&& final(self)@.pending == sp.rest
                &&& final(self)@.aborted == sp.overflow
            }),
    {
        if let PacketBuilderState::Abort(_) = self.state {
            return WsPacketResult::Abort("overflow".to_owned());
        }
        match split_stream(&mut self.state, &mut self.pending, input, leading_field_size) {
            PacketResult::Ready(pkts) => WsPacketResult::Ready(pkts),
            PacketResult::Abort(msg) => WsPacketResult::Abort(msg),
        }
    }
}

/// Law: feeding a builder in two chunks produces the same packets, in the
/// same order, as feeding it the two chunks joined, and leaves the same
/// bytes pending.
pub proof fn law_chunking_invariant(pending: Seq<u8>, a: Seq<u8>, b: Seq<u8>, lfs: nat)
    requires
        !split_frames(pending + a, lfs).overflow,
    ensures
        ({
            let first = split_frames(pending + a, lfs);
            let second = split_frames(first.rest + b, lfs);
            let whole = split_frames(pending + (a + b), lfs);
            &&& whole.frames == first.frames + second.frames
            &&& whole.rest == second.rest
            &&& whole.overflow == second.overflow
        }),
{
    lemma_split_append(pending + a, b, lfs);
    assert(pending + a + b =~= pending + (a + b));
}

} // verus!
