//! A reply of a Redis server.

use vstd::prelude::*;
use crate::resp::ReplyValue;
use vstd::string::StringSliceAdditionalSpecFns;

verus! {

/// The kind of a reply.
#[derive(Debug, PartialEq, Eq, Structural, Copy, Clone)]
pub enum RedisReplyType {
    Error,
    BulkString,
    SimpleString,
    Null,
    Integer,
    Array,
}

/// A reply: its kind, and the text, number or elements that the kind uses.
#[derive(Debug)]
pub struct RedisReply {
    rpl_type: RedisReplyType,
    str_val: Vec<u8>,
    int_val: i64,
    arr_val: Vec<RedisReply>,
}

impl RedisReply {
    /// The reply as a mathematical value.
    pub open spec fn value(self) -> ReplyValue
        decreases self,
    {
        match self.spec_type() {
            RedisReplyType::Error => ReplyValue::Error(self.spec_str()),
            RedisReplyType::BulkString => ReplyValue::BulkString(self.spec_str()),
            RedisReplyType::SimpleString => ReplyValue::SimpleString(self.spec_str()),
            RedisReplyType::Null => ReplyValue::Null,
            RedisReplyType::Integer => ReplyValue::Integer(self.spec_int()),
            RedisReplyType::Array => ReplyValue::Array(
                Seq::new(
                    self.spec_arr().len(),
                    |k: int|
                        if 0 <= k < self.spec_arr().len() {
                            self.spec_arr()[k].value()
                        } else {
                            ReplyValue::Null
                        },
                ),
            ),
        }
    }

    /// The kind of the reply.
    pub closed spec fn spec_type(self) -> RedisReplyType {
        self.rpl_type
    }

    /// The text of the reply.
    pub closed spec fn spec_str(self) -> Seq<u8> {
        self.str_val@
    }

    /// The number of the reply.
    pub closed spec fn spec_int(self) -> i64 {
        self.int_val
    }

    /// The elements of the reply.
    pub closed spec fn spec_arr(self) -> Seq<RedisReply> {
        self.arr_val@
    }

    /// The elements of an array reply, as values.
    pub open spec fn arr_values(self) -> Seq<ReplyValue> {
        Seq::new(self.spec_arr().len(), |k: int| self.spec_arr()[k].value())
    }

    /// A reply of a kind with the given fields.
    fn make(rpl_type: RedisReplyType, str_val: Vec<u8>, int_val: i64, arr_val: Vec<RedisReply>) -> (r: Self)
        ensures
            r.spec_type() == rpl_type,
            r.spec_str() == str_val@,
            r.spec_int() == int_val,
            r.spec_arr() == arr_val@,
    {
        RedisReply { rpl_type, str_val, int_val, arr_val }
    }

    /// The null reply.
    pub fn null() -> (r: Self)
        ensures
            r.spec_type() == RedisReplyType::Null,
            r.value() == ReplyValue::Null,
            r.spec_str() == Seq::<u8>::empty(),
            r.spec_int() == 0,
            r.spec_arr() == Seq::<RedisReply>::empty(),
    {
        Self::make(RedisReplyType::Null, Vec::new(), 0, Vec::new())
    }

    /// A bulk or simple string reply holding the bytes of `value`.
    pub fn from(value: &str, rpl_type: RedisReplyType) -> (r: Self)
        requires
            rpl_type == RedisReplyType::BulkString || rpl_type == RedisReplyType::SimpleString,
        ensures
            r.spec_type() == rpl_type,
            r.spec_str() == value.spec_bytes(),
            r.spec_int() == 0,
            r.spec_arr() == Seq::<RedisReply>::empty(),
            rpl_type == RedisReplyType::BulkString ==> r.value() == ReplyValue::BulkString(value.spec_bytes()),
            rpl_type == RedisReplyType::SimpleString ==> r.value() == ReplyValue::SimpleString(value.spec_bytes()),
    {
        let bytes = value.as_bytes();
        Self::from_bytes(vstd::slice::slice_to_vec(bytes), rpl_type)
    }

    /// A bulk or simple string reply holding `value`.
    pub fn from_bytes(value: Vec<u8>, rpl_type: RedisReplyType) -> (r: Self)
        requires
            rpl_type == RedisReplyType::BulkString || rpl_type == RedisReplyType::SimpleString,
        ensures
            r.spec_type() == rpl_type,
            r.spec_str() == value@,
            r.spec_int() == 0,
            r.spec_arr() == Seq::<RedisReply>::empty(),
            rpl_type == RedisReplyType::BulkString ==> r.value() == ReplyValue::BulkString(value@),
            rpl_type == RedisReplyType::SimpleString ==> r.value() == ReplyValue::SimpleString(value@),
    {
        Self::make(rpl_type, value, 0, Vec::new())
    }

    /// An error reply holding the bytes of `value`.
    pub fn from_error(value: &str) -> (r: Self)
        ensures
            r.spec_type() == RedisReplyType::Error,
            r.spec_str() == value.spec_bytes(),
            r.value() == ReplyValue::Error(value.spec_bytes()),
            r.spec_int() == 0,
            r.spec_arr() == Seq::<RedisReply>::empty(),
    {
        let bytes = value.as_bytes();
        Self::make(RedisReplyType::Error, vstd::slice::slice_to_vec(bytes), 0, Vec::new())
    }

    /// An error reply holding `value`.
    pub fn from_error_bytes(value: Vec<u8>) -> (r: Self)
        ensures
            r.spec_type() == RedisReplyType::Error,
            r.spec_str() == value@,
            r.value() == ReplyValue::Error(value@),
            r.spec_int() == 0,
            r.spec_arr() == Seq::<RedisReply>::empty(),
    {
        Self::make(RedisReplyType::Error, value, 0, Vec::new())
    }

    /// An integer reply.
    pub fn from_integer(value: i64) -> (r: Self)
        ensures
            r.spec_type() == RedisReplyType::Integer,
            r.spec_int() == value,
            r.value() == ReplyValue::Integer(value),
            r.spec_str() == Seq::<u8>::empty(),
            r.spec_arr() == Seq::<RedisReply>::empty(),
    {
        Self::make(RedisReplyType::Integer, Vec::new(), value, Vec::new())
    }

    /// An array reply holding `value`.
    pub fn from_vec(value: Vec<RedisReply>) -> (r: Self)
        ensures
            r.spec_type() == RedisReplyType::Array,
            r.spec_arr() == value@,
            r.spec_str() == Seq::<u8>::empty(),
            r.spec_int() == 0,
            r.value() == ReplyValue::Array(r.arr_values()),
    {
        let r = Self::make(RedisReplyType::Array, Vec::new(), 0, value);
        assert(r.value() == ReplyValue::Array(r.arr_values())) by {
            if let ReplyValue::Array(items) = r.value() {
                assert(items =~= r.arr_values());
            }
        }
        r
    }

    /// The kind of the reply.
    pub fn reply_type(&self) -> (r: RedisReplyType)
        ensures
            r == self.spec_type(),
    {
        self.rpl_type
    }

    /// The text of an error reply.
    pub fn error(&self) -> (r: &[u8])
        requires
            self.spec_type() == RedisReplyType::Error,
        ensures
            r@ == self.spec_str(),
    {
        self.str_val.as_slice()
    }

    /// Bulk strings, simple strings and errors carry text.
    pub fn is_string(&self) -> (r: bool)
        ensures
            r == (self.spec_type() == RedisReplyType::BulkString
                || self.spec_type() == RedisReplyType::SimpleString
                || self.spec_type() == RedisReplyType::Error),
    {
        self.rpl_type == RedisReplyType::BulkString
            || self.rpl_type == RedisReplyType::SimpleString
            || self.rpl_type == RedisReplyType::Error
    }

    /// An integer reply.
    pub fn is_integer(&self) -> (r: bool)
        ensures
            r == (self.spec_type() == RedisReplyType::Integer),
    {
        self.rpl_type == RedisReplyType::Integer
    }

    /// An array reply.
    pub fn is_array(&self) -> (r: bool)
        ensures
            r == (self.spec_type() == RedisReplyType::Array),
    {
        self.rpl_type == RedisReplyType::Array
    }

    /// An error reply.
    pub fn is_error(&self) -> (r: bool)
        ensures
            r == (self.spec_type() == RedisReplyType::Error),
    {
        self.rpl_type == RedisReplyType::Error
    }

    /// The null reply.
    pub fn is_null(&self) -> (r: bool)
        ensures
            r == (self.spec_type() == RedisReplyType::Null),
    {
        self.rpl_type == RedisReplyType::Null
    }

    /// Anything but an error.
    pub fn is_ok(&self) -> (r: bool)
        ensures
            r == (self.spec_type() != RedisReplyType::Error),
    {
        !self.is_error()
    }

    /// Neither an error nor null.
    pub fn is_valid(&self) -> (r: bool)
        ensures
            r == (self.spec_type() != RedisReplyType::Error && self.spec_type() != RedisReplyType::Null),
    {
        !self.is_error() && !self.is_null()
    }

    /// The text of a string or error reply.
    pub fn as_string(&self) -> (r: &[u8])
        requires
            self.spec_type() == RedisReplyType::BulkString
                || self.spec_type() == RedisReplyType::SimpleString
                || self.spec_type() == RedisReplyType::Error,
        ensures
            r@ == self.spec_str(),
    {
        self.str_val.as_slice()
    }

    /// The number of an integer reply.
    pub fn as_integer(&self) -> (r: i64)
        requires
            self.spec_type() == RedisReplyType::Integer,
        ensures
            r == self.spec_int(),
    {
        self.int_val
    }

    /// The elements of an array reply.
    pub fn as_array(&self) -> (r: &Vec<RedisReply>)
        requires
            self.spec_type() == RedisReplyType::Array,
        ensures
            r@ == self.spec_arr(),
    {
        &self.arr_val
    }
}

} // verus!
