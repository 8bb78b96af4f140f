//! Accumulation of an http request from the chunks that a connection
//! receives, under a size limit.
//!
//! Each chunk is added to what came before; the whole is then handed to the
//! request parser, which either finds a complete request or waits for more.

use vstd::prelude::*;
use crate::framing::append_bytes;

verus! {

/// Largest request accepted, in bytes (20 MiB); a request that reaches it
/// aborts the connection.
pub const MAX_REQUEST_SIZE: usize = 20971520;

/// What to do after a chunk: parse what has been received, or give up.
#[derive(Debug, PartialEq, Eq, Structural, Copy, Clone)]
pub enum RequestStep {
    /// Parse [`RequestParser::received`]; wait for more if it is partial.
    Parse,
    /// The request is too large: close the connection.
    Abort,
}

/// The bytes of a request received so far, and whether it was abandoned.
pub struct RequestParser {
    aborted: bool,
    pending: Vec<u8>,
}

/// The plain value of a [`RequestParser`].
pub struct RequestParserView {
    pub aborted: bool,
    pub pending: Seq<u8>,
}

impl View for RequestParser {
    type V = RequestParserView;

    closed spec fn view(&self) -> RequestParserView {
        RequestParserView { aborted: self.aborted, pending: self.pending@ }
    }
}

/// The parser after a chunk: given up when it was given up already or the
/// request would reach the limit; else the chunk appended.
pub open spec fn after_chunk(v: RequestParserView, input: Seq<u8>) -> RequestParserView {
    if v.aborted || v.pending.len() + input.len() >= MAX_REQUEST_SIZE {
        RequestParserView { aborted: true, pending: v.pending }
    } else {
        RequestParserView { aborted: false, pending: v.pending + input }
    }
}

impl RequestParser {
    /// A parser with nothing received.
    pub fn new() -> (p: RequestParser)
        ensures
            p@ == (RequestParserView { aborted: false, pending: Seq::empty() }),
    {
        RequestParser { aborted: false, pending: Vec::new() }
    }

    /// What has been received so far.
    pub fn received(&self) -> (r: &Vec<u8>)
        ensures
            r@ == self@.pending,
    {
        &self.pending
    }

    /// Takes in a chunk of input: aborts when the request would reach
    /// [`MAX_REQUEST_SIZE`] bytes (and from then on), else keeps the chunk
    /// and asks for a parse of everything received.
    pub fn parse_once(&mut self, input: &[u8]) -> (step: RequestStep)
        ensures
            final(self)@ == after_chunk(old(self)@, input@),
            step == (if final(self)@.aborted { RequestStep::Abort } else { RequestStep::Parse }),
    {
        if self.aborted {
            return RequestStep::Abort;
        }
        let full_len: u128 = self.pending.len() as u128 + input.len() as u128;
        if full_len >= MAX_REQUEST_SIZE as u128 {
            self.aborted = true;
            return RequestStep::Abort;
        }
        append_bytes(&mut self.pending, input);
        RequestStep::Parse
    }
}

/// The parser after each chunk of `chunks` in turn.
pub open spec fn after_chunks(v: RequestParserView, chunks: Seq<Seq<u8>>) -> RequestParserView
    decreases chunks.len(),
{
    if chunks.len() == 0 {
        v
    } else {
        after_chunk(after_chunks(v, chunks.drop_last()), chunks.last())
    }
}

/// All of `chunks`, one after another.
pub open spec fn chunks_joined(chunks: Seq<Seq<u8>>) -> Seq<u8>
    decreases chunks.len(),
{
    if chunks.len() == 0 {
        Seq::empty()
    } else {
        chunks_joined(chunks.drop_last()) + chunks.last()
    }
}

/// One chunk: the parser gives up exactly when it had given up or what it
/// holds and the chunk reach [`MAX_REQUEST_SIZE`] bytes together, keeping
/// what it held; otherwise it holds the chunk after what it held. So a
/// parser that has not given up always holds less than the limit.
pub proof fn law_request_limit_step(v: RequestParserView, input: Seq<u8>)
    ensures
        after_chunk(v, input).aborted <==> (v.aborted || v.pending.len() + input.len()
            >= 20971520),
        after_chunk(v, input).aborted ==> after_chunk(v, input).pending == v.pending,
        !after_chunk(v, input).aborted ==> after_chunk(v, input).pending == v.pending + input,
        (!v.aborted ==> v.pending.len() < 20971520) ==> (!after_chunk(v, input).aborted
            ==> after_chunk(v, input).pending.len() < 20971520),
{
}

/// From a fresh parser, after any chunks: it has given up exactly when the
/// chunks together reach [`MAX_REQUEST_SIZE`] bytes, and until then it holds
/// all of them, in order, and less than the limit.
pub proof fn law_request_limit(chunks: Seq<Seq<u8>>)
    ensures
        after_chunks(RequestParserView { aborted: false, pending: Seq::empty() }, chunks).aborted
            <==> chunks_joined(chunks).len() >= 20971520,
        !after_chunks(RequestParserView { aborted: false, pending: Seq::empty() }, chunks).aborted
            ==> after_chunks(
            RequestParserView { aborted: false, pending: Seq::empty() },
            chunks,
        ).pending == chunks_joined(chunks) && chunks_joined(chunks).len() < 20971520,
    decreases chunks.len(),
{
    if chunks.len() > 0 {
        law_request_limit(chunks.drop_last());
    }
}

/// Receiving input in two chunks or at once gives the same request, as
/// long as the limit is not reached.
pub proof fn law_request_chunking(v: RequestParserView, a: Seq<u8>, b: Seq<u8>)
    requires
        !v.aborted,
        v.pending.len() + a.len() + b.len() < MAX_REQUEST_SIZE,
    ensures
        after_chunk(after_chunk(v, a), b) == after_chunk(v, a + b),
{
    assert(v.pending + a + b =~= v.pending + (a + b));
}

} // verus!
