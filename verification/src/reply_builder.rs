//! Incremental parsing of Redis replies from the bytes that a connection
//! reads. Each builder keeps its progress between calls, so a reply may
//! arrive in any number of pieces.

use vstd::prelude::*;
use crate::buffer::Buffer;
use crate::redis_reply::{RedisReply, RedisReplyType};
use crate::resp::{lemma_reply_empty, lemma_reply_bad_flag, lemma_reply_line, lemma_reply_integer, lemma_reply_bulk, lemma_reply_array, lemma_bulk_size, lemma_bulk_data, lemma_array_size, lemma_array_items, lemma_items_step, lemma_replies_step, RepliesSplit, ReplyValue, ReplyParse, IntLine, ItemsParse, line_end, parse_int_line, parse_bulk_body, parse_array_body, parse_reply, parse_items, parse_replies, items_to_reply, prepend_items, items_encode, concat_all, shift_parse, lemma_int_line_take, lemma_int_line_extend, lemma_parse_reply_take, lemma_parse_reply_extend, lemma_parse_reply_len, lemma_items_concat, lemma_items_push};

verus! {

/// What one attempt to build a reply produced.
pub enum BuildResult {
    /// A complete reply; its bytes were consumed.
    Success(RedisReply),
    /// The reply is not complete yet; progress is kept.
    Suspend,
    /// The bytes are not a reply (a bad number or an unknown flag).
    ErrorInvalidInteger,
}

/// The values of a list of replies.
pub open spec fn reply_values(list: Seq<RedisReply>) -> Seq<ReplyValue> {
    Seq::new(list.len(), |i: int| list[i].value())
}

/// What a builder claims of the stream `full` (the bytes it had consumed
/// before the call, then the buffer), of what it keeps consumed after the
/// call (`kept`) and of the buffer after the call (`rest`).
pub open spec fn build_outcome(r: BuildResult, p: ReplyParse, full: Seq<u8>, kept: Seq<u8>, rest: Seq<u8>) -> bool {
    match r {
        BuildResult::Success(rep) => p matches ReplyParse::Done(v, k) && v == rep.value()
            && k <= full.len() && rest == full.skip(k as int),
        BuildResult::Suspend => p is NeedMore && kept + rest == full,
        BuildResult::ErrorInvalidInteger => p is Invalid,
    }
}

/// Builds a simple string: `+text\r\n`, after its flag.
#[derive(Debug)]
pub struct SimpleStringBuilder();

impl SimpleStringBuilder {
    /// Takes the first line of the buffer as a simple string once its line
    /// end has arrived.
    pub fn try_build(&mut self, buffer: &mut Buffer) -> (r: BuildResult)
        ensures
            match line_end(old(buffer)@) {
                Some(p) => r matches BuildResult::Success(rep)
                    && rep.value() == ReplyValue::SimpleString(old(buffer)@.take(p as int))
                    && final(buffer)@ == old(buffer)@.skip(p + 2int),
                None => r is Suspend && final(buffer)@ == old(buffer)@,
            },
    {
        match buffer.find_eol() {
            Some(pos) => {
                if buffer.size() - pos >= 2 {
                    let value = buffer.copy_prefix(pos);
                    buffer.advance(pos + 2);
                    BuildResult::Success(RedisReply::from_bytes(value, RedisReplyType::SimpleString))
                } else {
                    BuildResult::Suspend
                }
            },
            None => BuildResult::Suspend,
        }
    }
}

/// Builds an error: `-text\r\n`, after its flag.
#[derive(Debug)]
pub struct ErrorBuilder();

impl ErrorBuilder {
    /// An error builder.
    pub fn new() -> Self {
        ErrorBuilder()
    }

    /// Takes the first line of the buffer as an error once its line end has
    /// arrived.
    pub fn try_build(&mut self, buffer: &mut Buffer) -> (r: BuildResult)
        ensures
            match line_end(old(buffer)@) {
                Some(p) => r matches BuildResult::Success(rep)
                    && rep.value() == ReplyValue::Error(old(buffer)@.take(p as int))
                    && final(buffer)@ == old(buffer)@.skip(p + 2int),
                None => r is Suspend && final(buffer)@ == old(buffer)@,
            },
    {
        match buffer.find_eol() {
            Some(pos) => {
                if buffer.size() - pos >= 2 {
                    let value = buffer.copy_prefix(pos);
                    buffer.advance(pos + 2);
                    BuildResult::Success(RedisReply::from_error_bytes(value))
                } else {
                    BuildResult::Suspend
                }
            },
            None => BuildResult::Suspend,
        }
    }
}

/// Builds an integer: `42\r\n`, after its flag.
#[derive(Debug)]
pub struct IntegerBuilder();

impl IntegerBuilder {
    /// Parses the first line of the buffer as an integer once its line end
    /// has arrived; a line that is no integer is an error and is left in
    /// the buffer.
    pub fn try_build(&mut self, buffer: &mut Buffer) -> (r: BuildResult)
        ensures
            match parse_int_line(old(buffer)@) {
                IntLine::Done(n, h) => r matches BuildResult::Success(rep)
                    && rep.value() == ReplyValue::Integer(n)
                    && rep.spec_type() == RedisReplyType::Integer
                    && rep.spec_int() == n
                    && final(buffer)@ == old(buffer)@.skip(h as int),
                IntLine::NeedMore => r is Suspend && final(buffer)@ == old(buffer)@,
                IntLine::Invalid => r is ErrorInvalidInteger && final(buffer)@ == old(buffer)@,
            },
    {
        match buffer.find_eol() {
            Some(pos) => {
                if buffer.size() - pos >= 2 {
                    match buffer.parse_i64_prefix(pos) {
                        Some(int_value) => {
                            buffer.advance(pos + 2);
                            BuildResult::Success(RedisReply::from_integer(int_value))
                        },
                        None => BuildResult::ErrorInvalidInteger,
                    }
                } else {
                    BuildResult::Suspend
                }
            },
            None => BuildResult::Suspend,
        }
    }
}

/// Progress of a bulk string.
#[derive(Debug)]
pub enum BulkBuildState {
    /// Waiting for the length line.
    Size,
    /// The length line said this many bytes.
    Data(u64),
}

/// Builds a bulk string: `$len\r\nbytes\r\n` (or `$-1\r\n` for null), after
/// its flag.
pub struct BulkStringBuilder {
    integer_builder: IntegerBuilder,
    state: BulkBuildState,
    header: Ghost<Seq<u8>>,
}

impl BulkStringBuilder {
    /// The bytes consumed so far.
    pub closed spec fn consumed(self) -> Seq<u8> {
        self.header@
    }

    /// Waiting for a new bulk string.
    pub closed spec fn idle(self) -> bool {
        self.state is Size
    }

    /// The state agrees with the bytes consumed.
    pub closed spec fn wf(self) -> bool {
        match self.state {
            BulkBuildState::Size => self.header@ == Seq::<u8>::empty(),
            BulkBuildState::Data(n) => {
                &&& parse_int_line(self.header@) == IntLine::Done(n as i64, self.header@.len())
                &&& n <= i64::MAX
            },
        }
    }

    /// A builder waiting for a new bulk string.
    pub fn new() -> (r: Self)
        ensures
            r.wf(),
            r.idle(),
            r.consumed() == Seq::<u8>::empty(),
    {
        BulkStringBuilder { integer_builder: IntegerBuilder(), state: BulkBuildState::Size, header: Ghost(Seq::empty()) }
    }

    /// Continues the bulk string with the buffer.
    pub fn try_build(&mut self, buffer: &mut Buffer) -> (r: BuildResult)
        requires
            old(self).wf(),
        ensures
            final(self).wf(),
            build_outcome(r, parse_bulk_body(old(self).consumed() + old(buffer)@),
                old(self).consumed() + old(buffer)@, final(self).consumed(), final(buffer)@),
            r is Success ==> final(self).idle() && final(self).consumed() == Seq::<u8>::empty()
                && final(buffer)@.len() < old(buffer)@.len(),
    {
        let ghost full = self.header@ + buffer@;
        if let BulkBuildState::Size = self.state {
            assert(full =~= buffer@);
            proof { lemma_bulk_size(full); }
            let ghost h = match parse_int_line(full) {
                IntLine::Done(_, h) => h,
                _ => 0,
            };
            match self.integer_builder.try_build(buffer) {
                BuildResult::Success(reply) => {
                    let num = reply.as_integer();
                    proof {
                        lemma_int_line_take(full, h as int);
                        assert(full.take(h as int) + buffer@ =~= full);
                    }
                    if num == -1 {
                        return BuildResult::Success(RedisReply::null());
                    } else if num < -1 {
                        return BuildResult::ErrorInvalidInteger;
                    }
                    self.state = BulkBuildState::Data(num as u64);
                    self.header = Ghost(full.take(h as int));
                },
                BuildResult::Suspend => {
                    return BuildResult::Suspend;
                },
                BuildResult::ErrorInvalidInteger => {
                    return BuildResult::ErrorInvalidInteger;
                },
            }
        }
        match self.state {
            BulkBuildState::Data(n) => {
                let ghost hb = self.header@;
                let ghost bb = buffer@;
                proof {
                    lemma_bulk_data(hb, bb, n as i64);
                }
                let size = buffer.size();
                if (size as u64) >= n + 2 {
                    let value = buffer.copy_prefix(n as usize);
                    buffer.advance(n as usize + 2);
                    self.state = BulkBuildState::Size;
                    self.header = Ghost(Seq::empty());
                    proof {
                        assert(bb.skip(n + 2) =~= (hb + bb).skip(hb.len() + n + 2));
                    }
                    BuildResult::Success(RedisReply::from_bytes(value, RedisReplyType::BulkString))
                } else {
                    BuildResult::Suspend
                }
            },
            BulkBuildState::Size => {
                BuildResult::Suspend
            },
        }
    }
}

/// Progress of an array.
#[derive(Debug)]
pub enum ArrayBuildState {
    /// Waiting for the count line.
    Size,
    /// The count line said this many elements.
    Field(i64),
}

/// Builds an array: `*count\r\n` and that many replies, after its flag.
pub struct ArrayBuilder {
    integer_builder: IntegerBuilder,
    root_builder: RootBuilder,
    build_state: ArrayBuildState,
    reply_list: Vec<RedisReply>,
    header: Ghost<Seq<u8>>,
    items: Ghost<Seq<Seq<u8>>>,
}

/// Which part of a reply the root builder is in.
#[derive(Debug)]
pub enum RootBuildState {
    /// Waiting for the flag byte of a reply.
    Leading,
    /// After `+`.
    SimpleStringBuilder,
    /// After `-`.
    ErrorBuilder,
    /// After `:`.
    IntegerBuilder,
    /// After `$`.
    BulkStringBuilder,
    /// After `*`.
    ArrayBuilder,
    /// The stream held something that is no reply.
    Abort,
}

/// Builds one reply of any kind, starting at its flag byte.
pub struct RootBuilder {
    state: RootBuildState,
    simple_string_builder: SimpleStringBuilder,
    error_builder: ErrorBuilder,
    integer_builder: IntegerBuilder,
    bulk_string_builder: BulkStringBuilder,
    array_builder: Option<Box<ArrayBuilder>>,
}

impl RootBuilder {
    /// The bytes of the current reply consumed so far.
    pub closed spec fn consumed(self) -> Seq<u8>
        decreases self,
    {
        match self.state {
            RootBuildState::Leading => Seq::empty(),
            RootBuildState::SimpleStringBuilder => seq![43u8],
            RootBuildState::ErrorBuilder => seq![45u8],
            RootBuildState::IntegerBuilder => seq![58u8],
            RootBuildState::BulkStringBuilder => seq![36u8] + self.bulk_string_builder.consumed(),
            RootBuildState::ArrayBuilder => match self.array_builder {
                Some(a) => seq![42u8] + a.consumed(),
                None => seq![42u8],
            },
            RootBuildState::Abort => Seq::empty(),
        }
    }

    /// Waiting for a new reply.
    pub closed spec fn idle(self) -> bool {
        self.state is Leading
    }

    /// The stream held something that is no reply.
    pub closed spec fn aborted(self) -> bool {
        self.state is Abort
    }

    /// The states of the builder and its parts agree.
    pub closed spec fn wf(self) -> bool
        decreases self,
    {
        self.state is Abort || {
            &&& self.bulk_string_builder.wf()
            &&& (!(self.state is BulkStringBuilder) ==> self.bulk_string_builder.idle())
            &&& match self.array_builder {
                Some(a) => a.wf() && (!(self.state is ArrayBuilder) ==> a.idle()),
                None => !(self.state is ArrayBuilder),
            }
        }
    }

    /// A builder waiting for a new reply.
    pub fn new() -> (r: Self)
        ensures
            r.wf(),
            r.idle(),
            !r.aborted(),
            r.consumed() == Seq::<u8>::empty(),
    {
        RootBuilder {
            state: RootBuildState::Leading,
            simple_string_builder: SimpleStringBuilder(),
            error_builder: ErrorBuilder::new(),
            integer_builder: IntegerBuilder(),
            bulk_string_builder: BulkStringBuilder::new(),
            array_builder: None,
        }
    }

    #[verifier::spinoff_prover]
    #[verifier::rlimit(100)]
    /// Continues the current reply with the buffer: a complete reply is
    /// returned and its bytes consumed; an incomplete one keeps its
    /// progress; bytes that are no reply abort the builder.
    pub fn try_build(&mut self, buffer: &mut Buffer) -> (r: BuildResult)
        requires
            old(self).wf(),
            !old(self).aborted(),
        ensures
            final(self).wf(),
            build_outcome(r, parse_reply(old(self).consumed() + old(buffer)@),
                old(self).consumed() + old(buffer)@, final(self).consumed(), final(buffer)@),
            r is Success ==> final(self).idle() && final(buffer)@.len() < old(buffer)@.len(),
            r is Success ==> !final(self).aborted() && final(self).consumed() == Seq::<u8>::empty(),
            r is Suspend ==> !final(self).aborted(),
            r is ErrorInvalidInteger ==> final(self).aborted(),
        decreases old(buffer)@.len(), *old(self),
    {
        let ghost full = self.consumed() + buffer@;
        if let RootBuildState::Leading = self.state {
            assert(full =~= buffer@);
            proof { lemma_reply_empty(); }
            if buffer.size() >= 1 {
                let builder_flag = buffer.read_u8();
                proof {
                    assert(full =~= seq![builder_flag] + buffer@);
                }
                if builder_flag == 43u8 {
                    self.state = RootBuildState::SimpleStringBuilder;
                } else if builder_flag == 45u8 {
                    self.state = RootBuildState::ErrorBuilder;
                } else if builder_flag == 58u8 {
                    self.state = RootBuildState::IntegerBuilder;
                } else if builder_flag == 36u8 {
                    self.state = RootBuildState::BulkStringBuilder;
                } else if builder_flag == 42u8 {
                    self.state = RootBuildState::ArrayBuilder;
                    if self.array_builder.is_none() {
                        self.array_builder = Some(Box::new(ArrayBuilder::new()));
                    }
                } else {
                    proof { lemma_reply_bad_flag(builder_flag, buffer@); }
                    self.state = RootBuildState::Abort;
                    return BuildResult::ErrorInvalidInteger;
                }
            } else {
                return BuildResult::Suspend;
            }
        }
        let ghost b = buffer@;
        match self.state {
            RootBuildState::SimpleStringBuilder => {
                assert(full =~= seq![43u8] + b);
                proof { lemma_reply_line(43u8, b); }
                match self.simple_string_builder.try_build(buffer) {
                    BuildResult::Success(reply) => {
                        self.state = RootBuildState::Leading;
                        proof {
                            let p = line_end(b).unwrap();
                            assert(b.skip(p + 2int) =~= full.skip(p + 3int));
                        }
                        BuildResult::Success(reply)
                    },
                    BuildResult::Suspend => BuildResult::Suspend,
                    BuildResult::ErrorInvalidInteger => {
                        self.state = RootBuildState::Abort;
                        BuildResult::ErrorInvalidInteger
                    },
                }
            },
            RootBuildState::ErrorBuilder => {
                assert(full =~= seq![45u8] + b);
                proof { lemma_reply_line(45u8, b); }
                match self.error_builder.try_build(buffer) {
                    BuildResult::Success(reply) => {
                        self.state = RootBuildState::Leading;
                        proof {
                            let p = line_end(b).unwrap();
                            assert(b.skip(p + 2int) =~= full.skip(p + 3int));
                        }
                        BuildResult::Success(reply)
                    },
                    BuildResult::Suspend => BuildResult::Suspend,
                    BuildResult::ErrorInvalidInteger => {
                        self.state = RootBuildState::Abort;
                        BuildResult::ErrorInvalidInteger
                    },
                }
            },
            RootBuildState::IntegerBuilder => {
                assert(full =~= seq![58u8] + b);
                proof { lemma_reply_integer(b); }
                match self.integer_builder.try_build(buffer) {
                    BuildResult::Success(reply) => {
                        self.state = RootBuildState::Leading;
                        proof {
                            if let IntLine::Done(n, h) = parse_int_line(b) {
                                assert(b.skip(h as int) =~= full.skip(h + 1int));
                            }
                        }
                        BuildResult::Success(reply)
                    },
                    BuildResult::Suspend => BuildResult::Suspend,
                    BuildResult::ErrorInvalidInteger => {
                        self.state = RootBuildState::Abort;
                        BuildResult::ErrorInvalidInteger
                    },
                }
            },
            RootBuildState::BulkStringBuilder => {
                let ghost bc = self.bulk_string_builder.consumed();
                assert(full =~= seq![36u8] + (bc + b));
                proof { lemma_reply_bulk(bc + b); }
                match self.bulk_string_builder.try_build(buffer) {
                    BuildResult::Success(reply) => {
                        self.state = RootBuildState::Leading;
                        proof {
                            if let ReplyParse::Done(v, k) = parse_bulk_body(bc + b) {
                                assert((bc + b).skip(k as int) =~= full.skip(k + 1int));
                            }
                        }
                        BuildResult::Success(reply)
                    },
                    BuildResult::Suspend => {
                        assert(seq![36u8] + self.bulk_string_builder.consumed() + buffer@ =~= full);
                        BuildResult::Suspend
                    },
                    BuildResult::ErrorInvalidInteger => {
                        self.state = RootBuildState::Abort;
                        BuildResult::ErrorInvalidInteger
                    },
                }
            },
            RootBuildState::ArrayBuilder => {
                let boxed = self.array_builder.take().unwrap();
                let mut array_builder: ArrayBuilder = *boxed;
                let ghost ac = array_builder.consumed();
                assert(full =~= seq![42u8] + (ac + b));
                proof { lemma_reply_array(ac + b); }
                let r = array_builder.try_build(buffer);
                self.array_builder = Some(Box::new(array_builder));
                match r {
                    BuildResult::Success(reply) => {
                        self.state = RootBuildState::Leading;
                        proof {
                            if let ReplyParse::Done(v, k) = parse_array_body(ac + b) {
                                assert((ac + b).skip(k as int) =~= full.skip(k + 1int));
                            }
                        }
                        BuildResult::Success(reply)
                    },
                    BuildResult::Suspend => {
                        assert(seq![42u8] + self.array_builder.unwrap().consumed() + buffer@ =~= full);
                        BuildResult::Suspend
                    },
                    BuildResult::ErrorInvalidInteger => {
                        self.state = RootBuildState::Abort;
                        BuildResult::ErrorInvalidInteger
                    },
                }
            },
            _ => {
                BuildResult::Suspend
            },
        }
    }
}

impl ArrayBuilder {
    /// The bytes of the current array consumed so far.
    pub closed spec fn consumed(self) -> Seq<u8>
        decreases self,
    {
        self.header@ + concat_all(self.items@) + self.root_builder.consumed()
    }

    /// Waiting for a new array.
    pub closed spec fn idle(self) -> bool {
        self.build_state is Size
    }

    /// The builder of the elements.
    pub closed spec fn element_builder(self) -> RootBuilder {
        self.root_builder
    }

    /// Number of elements collected so far.
    pub closed spec fn reply_count(self) -> nat {
        self.reply_list@.len()
    }

    /// The state agrees with the bytes consumed.
    pub closed spec fn wf(self) -> bool
        decreases self,
    {
        &&& self.root_builder.wf()
        &&& !self.root_builder.aborted()
        &&& match self.build_state {
            ArrayBuildState::Size => {
                &&& self.header@ == Seq::<u8>::empty()
                &&& self.items@ == Seq::<Seq<u8>>::empty()
                &&& self.reply_list@.len() == 0
                &&& self.root_builder.idle()
            },
            ArrayBuildState::Field(num) => {
                &&& num >= 1
                &&& parse_int_line(self.header@) == IntLine::Done(num, self.header@.len())
                &&& self.items@.len() == self.reply_list@.len()
                &&& self.reply_list@.len() < num
                &&& items_encode(self.items@, reply_values(self.reply_list@))
            },
        }
    }

    /// A builder waiting for a new array.
    pub fn new() -> (r: Self)
        ensures
            r.wf(),
            r.idle(),
            r.consumed() == Seq::<u8>::empty(),
            r.reply_count() == 0,
    {
        let r = ArrayBuilder {
            integer_builder: IntegerBuilder(),
            root_builder: RootBuilder::new(),
            build_state: ArrayBuildState::Size,
            reply_list: Vec::new(),
            header: Ghost(Seq::empty()),
            items: Ghost(Seq::empty()),
        };
        assert(r.consumed() =~= Seq::<u8>::empty());
        r
    }

    /// Forgets the array in progress, with any element in progress: waits
    /// for a new count line with no element collected, as a new builder
    /// does.
    pub fn reset(&mut self)
        ensures
            final(self).wf(),
            final(self).idle(),
            final(self).reply_count() == 0,
            final(self).consumed() == Seq::<u8>::empty(),
    {
        self.build_state = ArrayBuildState::Size;
        self.reply_list.clear();
        self.root_builder = RootBuilder::new();
        self.header = Ghost(Seq::empty());
        self.items = Ghost(Seq::empty());
        assert(self.consumed() =~= Seq::<u8>::empty());
    }

    #[verifier::spinoff_prover]
    #[verifier::rlimit(100)]
    /// Continues the current array with the buffer.
    pub fn try_build(&mut self, buffer: &mut Buffer) -> (r: BuildResult)
        requires
            old(self).wf(),
        ensures
            !(r is ErrorInvalidInteger) ==> final(self).wf(),
            build_outcome(r, parse_array_body(old(self).consumed() + old(buffer)@),
                old(self).consumed() + old(buffer)@, final(self).consumed(), final(buffer)@),
            r is Success ==> final(self).idle() && final(buffer)@.len() < old(buffer)@.len(),
            r is Success ==> final(self).reply_count() == 0 && final(self).consumed() == Seq::<u8>::empty(),
        decreases old(buffer)@.len(), *old(self),
    {
        let ghost full = self.consumed() + buffer@;
        if let ArrayBuildState::Size = self.build_state {
            assert(full =~= buffer@);
            proof { lemma_array_size(full); }
            let ghost h = match parse_int_line(full) {
                IntLine::Done(_, h) => h,
                _ => 0,
            };
            match self.integer_builder.try_build(buffer) {
                BuildResult::Success(reply) => {
                    let num = reply.as_integer();
                    proof {
                        lemma_int_line_take(full, h as int);
                        assert(full.take(h as int) + buffer@ =~= full);
                    }
                    if num == 0 {
                        return BuildResult::Success(RedisReply::from_bytes(Vec::new(), RedisReplyType::BulkString));
                    } else if num == -1 {
                        return BuildResult::Success(RedisReply::null());
                    } else if num < -1 {
                        return BuildResult::ErrorInvalidInteger;
                    }
                    self.build_state = ArrayBuildState::Field(num);
                    self.header = Ghost(full.take(h as int));
                    assert(concat_all(self.items@) =~= Seq::<u8>::empty());
                    assert(self.consumed() + buffer@ =~= full);
                },
                BuildResult::Suspend => {
                    return BuildResult::Suspend;
                },
                BuildResult::ErrorInvalidInteger => {
                    return BuildResult::ErrorInvalidInteger;
                },
            }
        }
        let num = match self.build_state {
            ArrayBuildState::Field(num) => num,
            ArrayBuildState::Size => 1,
        };
        proof {
            let hd = self.header@;
            let rest = concat_all(self.items@) + self.root_builder.consumed() + buffer@;
            lemma_array_items(hd, rest, num);
            assert(full =~= hd + rest);
        }
        loop
            invariant
                self.wf(),
                self.build_state == ArrayBuildState::Field(num),
                full == old(self).consumed() + old(buffer)@,
                self.consumed() + buffer@ == full,
                buffer@.len() <= old(buffer)@.len(),
                buffer@.len() < old(buffer)@.len() || self.root_builder == old(self).root_builder,
                parse_array_body(full) == items_to_reply(
                    parse_items(concat_all(self.items@) + self.root_builder.consumed() + buffer@, num as nat),
                    self.header@.len()),
                full.len() == self.header@.len() + (concat_all(self.items@) + self.root_builder.consumed() + buffer@).len(),
            decreases buffer@.len(),
        {
            let ghost hd = self.header@;
            let ghost its = self.items@;
            let ghost vals = reply_values(self.reply_list@);
            let ghost rc = self.root_builder.consumed();
            let ghost b = buffer@;
            proof {
                lemma_items_concat(its, vals, rc + b, num as nat);
                assert(concat_all(its) + rc + b =~= concat_all(its) + (rc + b));
                lemma_items_step(rc + b, (num - its.len()) as nat);
            }
            match self.root_builder.try_build(buffer) {
                BuildResult::Success(reply) => {
                    let ghost v = reply.value();
                    let ghost kk = match parse_reply(rc + b) {
                        ReplyParse::Done(_, kk) => kk,
                        _ => 0,
                    };
                    let ghost e = (rc + b).take(kk as int);
                    proof {
                        lemma_parse_reply_take(rc + b);
                        lemma_parse_reply_len(rc + b);
                        lemma_items_push(its, vals, e, v);
                        assert(e + buffer@ =~= rc + b);
                    }
                    self.reply_list.push(reply);
                    self.items = Ghost(its.push(e));
                    proof {
                        assert(reply_values(self.reply_list@) =~= vals.push(v));
                        assert(self.consumed() + buffer@ =~= full) by {
                            assert(self.root_builder.consumed() == Seq::<u8>::empty());
                            assert(hd + (concat_all(its) + e) + Seq::<u8>::empty() + buffer@ =~= hd + concat_all(its) + rc + b);
                        }
                    }
                    if self.reply_list.len() as u64 == num as u64 {
                        let mut list: Vec<RedisReply> = Vec::new();
                        std::mem::swap(&mut list, &mut self.reply_list);
                        let ghost done_vals = reply_values(list@);
                        self.build_state = ArrayBuildState::Size;
                        self.header = Ghost(Seq::empty());
                        self.items = Ghost(Seq::empty());
                        let rep = RedisReply::from_vec(list);
                        proof {
                            assert(rep.arr_values() =~= done_vals);
                            assert(done_vals =~= vals + seq![v]);
                            let m = (num - its.len()) as nat;
                            assert(m == 1);
                            assert((rc + b).skip(kk as int) == buffer@);
                            assert(seq![v] + Seq::<ReplyValue>::empty() =~= seq![v]);
                            assert(full.skip((hd.len() + concat_all(its).len() + kk) as int) =~= buffer@);
                            assert(self.consumed() =~= Seq::<u8>::empty());
                        }
                        return BuildResult::Success(rep);
                    }
                    proof {
                        lemma_items_concat(self.items@, reply_values(self.reply_list@), buffer@, num as nat);
                        assert(concat_all(its.push(e)) + Seq::<u8>::empty() + buffer@ =~= concat_all(its.push(e)) + buffer@);
                        assert(concat_all(its.push(e)) + buffer@ =~= concat_all(its) + (rc + b));
                    }
                },
                BuildResult::Suspend => {
                    proof {
                        assert(self.consumed() + buffer@ =~= hd + concat_all(its) + (rc + b));
                        assert(hd + concat_all(its) + (rc + b) =~= full);
                    }
                    return BuildResult::Suspend;
                },
                BuildResult::ErrorInvalidInteger => {
                    return BuildResult::ErrorInvalidInteger;
                },
            }
        }
    }
}

/// What one call of a reply builder produced.
pub enum ReplyResult {
    /// The replies completed by this input, in stream order.
    Ready(Vec<RedisReply>),
    /// The stream held something that is no reply.
    Abort(String),
}

/// Turns the bytes that a Redis connection reads into replies.
pub struct ReplyBuilder {
    buffer: Buffer,
    root_builder: RootBuilder,
}

/// The bytes read since the last complete reply, and whether the stream
/// went wrong.
pub struct ReplyBuilderView {
    pub pending: Seq<u8>,
    pub aborted: bool,
}

impl View for ReplyBuilder {
    type V = ReplyBuilderView;

    closed spec fn view(&self) -> ReplyBuilderView {
        ReplyBuilderView {
            pending: self.root_builder.consumed() + self.buffer@,
            aborted: self.root_builder.aborted() || !self.root_builder.wf(),
        }
    }
}

/// The replies of a stream as the result that a builder reports.
pub open spec fn replies_result(r: ReplyResult, sp: RepliesSplit) -> bool {
    if sp.invalid {
        r matches ReplyResult::Abort(msg) && msg@ == "ErrorInvalidInteger"@
    } else {
        r matches ReplyResult::Ready(list) && reply_values(list@) == sp.values
    }
}

impl ReplyBuilder {
    /// A builder with nothing read.
    pub fn new() -> (r: Self)
        ensures
            r@.pending == Seq::<u8>::empty(),
            !r@.aborted,
    {
        let r = ReplyBuilder { buffer: Buffer::new(), root_builder: RootBuilder::new() };
        assert(r@.pending =~= Seq::<u8>::empty());
        r
    }

    /// Adds `input` to the stream and returns every reply that it completes,
    /// in order; the bytes of an incomplete last reply are kept for the
    /// next call. Bytes that are no reply abort the stream with
    /// `Abort("ErrorInvalidInteger")`.
    pub fn build_once(&mut self, input: &[u8]) -> (r: ReplyResult)
        requires
            !old(self)@.aborted,
        ensures
            replies_result(r, parse_replies(old(self)@.pending + input@)),
            final(self)@.aborted == parse_replies(old(self)@.pending + input@).invalid,
            !parse_replies(old(self)@.pending + input@).invalid
                ==> final(self)@.pending == parse_replies(old(self)@.pending + input@).rest,
    {
        let ghost total = self.root_builder.consumed() + self.buffer@ + input@;
        self.buffer.write_slice(input);
        assert(self.root_builder.consumed() + self.buffer@ =~= total);
        let mut reply_list: Vec<RedisReply> = Vec::new();
        loop
            invariant
                self.root_builder.wf(),
                !self.root_builder.aborted(),
                total == old(self)@.pending + input@,
                ({
                    let rs = parse_replies(self.root_builder.consumed() + self.buffer@);
                    parse_replies(total) == (RepliesSplit {
                        values: reply_values(reply_list@) + rs.values,
                        rest: rs.rest,
                        invalid: rs.invalid,
                    })
                }),
            decreases self.buffer@.len(),
        {
            let ghost cur = self.root_builder.consumed() + self.buffer@;
            let ghost old_vals = reply_values(reply_list@);
            proof { lemma_replies_step(cur); }
            match self.root_builder.try_build(&mut self.buffer) {
                BuildResult::Success(reply) => {
                    let ghost v = reply.value();
                    reply_list.push(reply);
                    proof {
                        assert(reply_values(reply_list@) =~= old_vals.push(v));
                        let rs = parse_replies(self.root_builder.consumed() + self.buffer@);
                        assert(self.root_builder.consumed() + self.buffer@ =~= self.buffer@);
                        assert(old_vals + (seq![v] + rs.values) =~= old_vals.push(v) + rs.values);
                    }
                },
                BuildResult::Suspend => {
                    proof {
                        assert(reply_values(reply_list@) + Seq::<ReplyValue>::empty() =~= reply_values(reply_list@));
                    }
                    return ReplyResult::Ready(reply_list);
                },
                BuildResult::ErrorInvalidInteger => {
                    proof {
                        reveal_strlit("ErrorInvalidInteger");
                    }
                    return ReplyResult::Abort("ErrorInvalidInteger".to_owned());
                },
            }
        }
    }
}

/// Law: feeding a reply builder in two chunks gives the same replies, in
/// the same order, as feeding it the two chunks joined.
pub proof fn law_replies_chunking(pending: Seq<u8>, a: Seq<u8>, b: Seq<u8>)
    requires
        !parse_replies(pending + a).invalid,
    ensures
        ({
            let first = parse_replies(pending + a);
            let second = parse_replies(first.rest + b);
            let whole = parse_replies(pending + (a + b));
            &&& whole.values == first.values + second.values
            &&& whole.rest == second.rest
            &&& whole.invalid == second.invalid
        }),
{
    crate::resp::lemma_replies_append(pending + a, b);
    assert(pending + a + b =~= pending + (a + b));
}

/// Feeding a root builder in pieces parses what feeding it all at once
/// does. After a `Suspend` it has kept every byte it was given (what it
/// consumed and what is left in the buffer), so once more bytes are added
/// to the buffer it parses the whole input so far; a reply that was already
/// complete, or already invalid, stays so whatever follows it; and after a
/// `Success` it starts afresh, on the bytes after the reply.
pub proof fn law_root_builder_chunking(kept: Seq<u8>, rest: Seq<u8>, first: Seq<u8>, more: Seq<u8>)
    requires
        kept + rest == first,
    ensures
        parse_reply(kept + (rest + more)) == parse_reply(first + more),
        parse_reply(first) matches ReplyParse::Done(v, k) ==> parse_reply(first + more) == parse_reply(first)
            && (first + more).skip(k as int) == first.skip(k as int) + more,
        parse_reply(first) is Invalid ==> parse_reply(first + more) is Invalid,
{
    assert(kept + (rest + more) =~= first + more);
    crate::resp::lemma_parse_reply_extend(first, more);
    if let ReplyParse::Done(v, k) = parse_reply(first) {
        crate::resp::lemma_parse_reply_len(first);
        assert((first + more).skip(k as int) =~= first.skip(k as int) + more);
    }
}

} // verus!
