//! Splitting a byte stream into length-prefixed frames.
//!
//! Every frame starts with a big-endian length field of `lfs` bytes (two or
//! four) that holds the length of the whole frame, the field included.

use vstd::prelude::*;

verus! {

/// Largest frame that the splitter accepts (20 MiB).
pub const MAX_PACKET_SIZE: usize = 20971520;

/// The big-endian value of the first `n` bytes of `s`.
pub open spec fn be_value(s: Seq<u8>, n: nat) -> nat
    decreases n,
{
    if n == 0 {
        0
    } else {
        be_value(s, (n - 1) as nat) * 256 + s[n - 1] as nat
    }
}

/// The outcome of splitting a stream: the complete frames in order, the
/// bytes after the last complete frame, and whether a bad length field
/// (zero, or above [`MAX_PACKET_SIZE`]) stopped the split.
pub struct FrameSplit {
    pub frames: Seq<Seq<u8>>,
    pub rest: Seq<u8>,
    pub overflow: bool,
}

/// Splits `s` into frames whose length field has `lfs` bytes.
pub open spec fn split_frames(s: Seq<u8>, lfs: nat) -> FrameSplit
    decreases s.len(),
{
    if s.len() < lfs {
        FrameSplit { frames: Seq::empty(), rest: s, overflow: false }
    } else {
        let len = be_value(s, lfs);
        if len == 0 || len > MAX_PACKET_SIZE {
            FrameSplit { frames: Seq::empty(), rest: s, overflow: true }
        } else if s.len() < len {
            FrameSplit { frames: Seq::empty(), rest: s, overflow: false }
        } else {
            let r = split_frames(s.skip(len as int), lfs);
            FrameSplit { frames: seq![s.take(len as int)] + r.frames, rest: r.rest, overflow: r.overflow }
        }
    }
}

/// The concatenation of a sequence of frames.
pub open spec fn concat_frames(fs: Seq<Seq<u8>>) -> Seq<u8>
    decreases fs.len(),
{
    if fs.len() == 0 {
        Seq::empty()
    } else {
        fs[0] + concat_frames(fs.drop_first())
    }
}

/// The length field only looks at the first `n` bytes.
pub proof fn lemma_be_value_prefix(s: Seq<u8>, t: Seq<u8>, n: nat)
    requires
        n <= s.len(),
        n <= t.len(),
        forall|i: int| 0 <= i < n ==> s[i] == t[i],
    ensures
        be_value(s, n) == be_value(t, n),
    decreases n,
{
    if n > 0 {
        lemma_be_value_prefix(s, t, (n - 1) as nat);
    }
}

/// A length field of `n` bytes is below `256^n`.
pub proof fn lemma_be_value_bound(s: Seq<u8>, n: nat)
    requires
        n <= s.len(),
    ensures
        n == 2 ==> be_value(s, n) < 65536,
        n == 4 ==> be_value(s, n) < 4294967296,
{
    reveal_with_fuel(be_value, 5);
}

/// Splitting a stream and then more input gives the frames of the stream
/// followed by the frames of its unsplit rest joined with the new input:
/// a frame never depends on how the stream was cut into chunks.
pub proof fn lemma_split_append(s: Seq<u8>, t: Seq<u8>, lfs: nat)
    requires
        !split_frames(s, lfs).overflow,
    ensures
        ({
            let a = split_frames(s, lfs);
            let b = split_frames(a.rest + t, lfs);
            split_frames(s + t, lfs) == FrameSplit {
                frames: a.frames + b.frames,
                rest: b.rest,
                overflow: b.overflow,
            }
        }),
    decreases s.len(),
{
    let a = split_frames(s, lfs);
    let b = split_frames(a.rest + t, lfs);
    if s.len() < lfs {
        assert(a.frames + b.frames =~= b.frames);
    } else {
        let len = be_value(s, lfs);
        lemma_be_value_prefix(s, s + t, lfs);
        if s.len() < len {
            assert(a.frames + b.frames =~= b.frames);
        } else {
            let s2 = s.skip(len as int);
            assert((s + t).skip(len as int) =~= s2 + t);
            assert((s + t).take(len as int) =~= s.take(len as int));
            lemma_split_append(s2, t, lfs);
            let r = split_frames(s2, lfs);
            assert(seq![s.take(len as int)] + r.frames + b.frames
                =~= seq![s.take(len as int)] + (r.frames + b.frames));
        }
    }
}

/// No byte is lost or invented: the frames followed by the rest are the
/// stream itself, and every frame is as long as its length field says.
pub proof fn lemma_split_preserves_bytes(s: Seq<u8>, lfs: nat)
    ensures
        concat_frames(split_frames(s, lfs).frames) + split_frames(s, lfs).rest == s,
        forall|i: int| #![trigger split_frames(s, lfs).frames[i]]
            0 <= i < split_frames(s, lfs).frames.len() ==> {
                let f = split_frames(s, lfs).frames[i];
                &&& 0 < f.len() <= MAX_PACKET_SIZE
                &&& (lfs <= f.len() ==> be_value(f, lfs) == f.len())
            },
    decreases s.len(),
{
    let sp = split_frames(s, lfs);
    if s.len() < lfs {
        assert(concat_frames(sp.frames) =~= Seq::<u8>::empty());
        assert(Seq::<u8>::empty() + s =~= s);
    } else {
        let len = be_value(s, lfs);
        if len == 0 || len > MAX_PACKET_SIZE || s.len() < len {
            assert(concat_frames(sp.frames) =~= Seq::<u8>::empty());
            assert(Seq::<u8>::empty() + s =~= s);
        } else {
            let s2 = s.skip(len as int);
            lemma_split_preserves_bytes(s2, lfs);
            let r = split_frames(s2, lfs);
            assert(sp.frames.drop_first() =~= r.frames);
            assert(sp.frames[0] == s.take(len as int));
            assert(concat_frames(sp.frames) == s.take(len as int) + concat_frames(r.frames));
            assert(s.take(len as int) + concat_frames(r.frames) + r.rest
                =~= s.take(len as int) + (concat_frames(r.frames) + r.rest));
            assert(s.take(len as int) + s2 =~= s);
            assert forall|i: int| 0 <= i < sp.frames.len() implies {
                let f = #[trigger] sp.frames[i];
                &&& 0 < f.len() <= MAX_PACKET_SIZE
                &&& (lfs <= f.len() ==> be_value(f, lfs) == f.len())
            } by {
                if i == 0 {
                    let f = s.take(len as int);
                    if lfs <= f.len() {
                        lemma_be_value_prefix(s, f, lfs);
                    }
                } else {
                    assert(sp.frames[i] == r.frames[i - 1]);
                }
            }
        }
    }
}

/// Reads the length field of `lfs` bytes that starts at `pos`.
pub fn peek_leading_field(buf: &Vec<u8>, pos: usize, lfs: u8) -> (r: usize)
    requires
        lfs == 2 || lfs == 4,
        pos + lfs <= buf@.len(),
    ensures
        r == be_value(buf@.skip(pos as int), lfs as nat),
{
    let ghost s = buf@.skip(pos as int);
    proof {
        reveal_with_fuel(be_value, 5);
        lemma_be_value_bound(s, lfs as nat);
    }
    let n = buf.len();
    assert(pos + lfs <= n);
    let b0 = buf[pos] as usize;
    let b1 = buf[pos + 1] as usize;
    if lfs == 2 {
        assert(s[0] == buf@[pos as int] && s[1] == buf@[pos + 1]);
        b0 * 256 + b1
    } else {
        let b2 = buf[pos + 2] as usize;
        let b3 = buf[pos + 3] as usize;
        assert(s[0] == buf@[pos as int] && s[1] == buf@[pos + 1]);
        assert(s[2] == buf@[pos + 2] && s[3] == buf@[pos + 3]);
        assert(((b0 * 256 + b1) * 256 + b2) * 256 + b3 < 4294967296);
        ((b0 * 256 + b1) * 256 + b2) * 256 + b3
    }
}

/// A copy of `buf[start..end]`.
pub fn copy_range(buf: &Vec<u8>, start: usize, end: usize) -> (r: Vec<u8>)
    requires
        start <= end <= buf@.len(),
    ensures
        r@ == buf@.subrange(start as int, end as int),
{
    let mut r: Vec<u8> = Vec::with_capacity(end - start);
    let mut i = start;
    while i < end
        invariant
            start <= i <= end <= buf@.len(),
            r@ == buf@.subrange(start as int, i as int),
        decreases end - i,
    {
        r.push(buf[i]);
        i = i + 1;
        assert(r@ =~= buf@.subrange(start as int, i as int));
    }
    r
}

/// Appends a copy of `src` to `dst`.
pub fn append_bytes(dst: &mut Vec<u8>, src: &[u8])
    ensures
        final(dst)@ == old(dst)@ + src@,
{
    let mut i: usize = 0;
    while i < src.len()
        invariant
            i <= src@.len(),
            dst@ == old(dst)@ + src@.subrange(0, i as int),
        decreases src.len() - i,
    {
        dst.push(src[i]);
        i = i + 1;
        assert(dst@ =~= old(dst)@ + src@.subrange(0, i as int));
    }
    assert(src@.subrange(0, src@.len() as int) =~= src@);
}

} // verus!
