use crate::message::{Message, Msg};
use bytes::{Buf, BytesMut};
use rmpv::Value;
use vstd::prelude::*;

verus! {

/// `bytes::BytesMut`, the buffer that a framed stream reads into and writes
/// from. Nothing is known of it but what `buffered` says it holds.
#[verifier::external_type_specification]
#[verifier::external_body]
pub struct ExBytesMut(bytes::BytesMut);

/// `rmpv::Value`, a MessagePack value as the reader makes it and the writer
/// takes it. Nothing is known of it but what `value_content` says it stands
/// for.
#[verifier::external_type_specification]
#[verifier::external_body]
pub struct ExValue(rmpv::Value);

/// The most nested reads that the reader is ever asked to follow. It is the
/// limit that `rmpv` itself reads under when it is given none.
pub const MAX_READ_DEPTH: usize = 1024;

/// Why reading one value off the head of a byte string gave no value.
#[derive(Debug, Clone, Copy, PartialEq, Eq, Structural)]
pub enum ReadFailure {
    /// The bytes ended before the value did.
    Truncated,
    /// The value nests deeper than the reader was allowed to follow.
    TooDeep,
    /// The bytes cannot begin any value.
    Invalid,
}

/// The bytes that a buffer holds, first to last.
pub uninterp spec fn buffered(buf: BytesMut) -> Seq<u8>;

/// The message that a MessagePack value stands for.
pub uninterp spec fn value_content(value: Value) -> Msg;

/// What reading one MessagePack value off the head of `bytes` gives when at
/// most `max_depth` nested reads are allowed: the value with the number of
/// bytes it occupies, or the reason there is none.
pub uninterp spec fn msgpack_read(bytes: Seq<u8>, max_depth: usize) -> Result<(Msg, nat), ReadFailure>;

/// What each of a row of values stands for, in the same order.
pub open spec fn contents_of(items: Seq<Value>) -> Seq<Msg> {
    Seq::new(items.len(), |i: int| value_content(items[i]))
}

/// What each key and value of a row of pairs stands for, in the same order.
pub open spec fn pair_contents_of(pairs: Seq<(Value, Value)>) -> Seq<(Msg, Msg)> {
    Seq::new(pairs.len(), |i: int| (value_content(pairs[i].0), value_content(pairs[i].1)))
}

/// The MessagePack encoding of a message.
pub uninterp spec fn msgpack_written(content: Msg) -> Seq<u8>;

/// `BytesMut` as a slice (its `Deref`): the bytes it holds.
#[verifier::external_body]
pub(crate) fn buffer_bytes(buf: &BytesMut) -> (bytes: &[u8])
    ensures
        bytes@ == buffered(*buf),
{
    &buf[..]
}

/// `BytesMut::split_to`, dropping the head it returns: the first `at` bytes
/// leave the buffer and the rest stay in order.
#[verifier::external_body]
pub(crate) fn buffer_advance(buf: &mut BytesMut, at: usize)
    requires
        at <= buffered(*old(buf)).len(),
    ensures
        buffered(*final(buf)) == buffered(*old(buf)).skip(at as int),
{
    let _ = buf.split_to(at);
}

/// `BytesMut::extend` with a byte vector: the bytes are appended in order.
#[verifier::external_body]
pub(crate) fn buffer_extend(buf: &mut BytesMut, data: Vec<u8>)
    ensures
        buffered(*final(buf)) == buffered(*old(buf)) + data@,
{
    buf.extend(data);
}

/// `rmpv::decode::read_value_with_max_depth` on a cursor over `bytes`: the
/// value read and where the cursor then stands, which is never past the end.
/// A failure is sorted by the error's variant and I/O kind. The reader calls
/// itself once for each nested read, so the depth it may go to is bounded.
#[verifier::external_body]
pub(crate) fn read_value(bytes: &[u8], max_depth: usize) -> (r: Result<(Value, usize), ReadFailure>)
    requires
        max_depth <= MAX_READ_DEPTH,
    ensures
        match r {
            Ok((value, used)) => used <= bytes@.len() && msgpack_read(bytes@, max_depth) == Ok::<
                (Msg, nat),
                ReadFailure,
            >((value_content(value), used as nat)),
            Err(failure) => msgpack_read(bytes@, max_depth) == Err::<(Msg, nat), ReadFailure>(
                failure,
            ),
        },
{
    let mut cursor = std::io::Cursor::new(bytes);
    match rmpv::decode::read_value_with_max_depth(&mut cursor, max_depth) {
        Ok(value) => Ok((value, cursor.position() as usize)),
        Err(rmpv::decode::Error::DepthLimitExceeded) => Err(ReadFailure::TooDeep),
        Err(e) if e.kind() == std::io::ErrorKind::UnexpectedEof => Err(ReadFailure::Truncated),
        Err(_) => Err(ReadFailure::Invalid),
    }
}

/// `rmpv::encode::write_value` into an empty vector. Every failure of that
/// function is a failure of its writer, and a vector takes all it is given.
#[verifier::external_body]
pub(crate) fn write_value(value: &Value) -> (bytes: Vec<u8>)
    ensures
        bytes@ == msgpack_written(value_content(*value)),
{
    let mut bytes = Vec::new();
    let _ = rmpv::encode::write_value(&mut bytes, value);
    bytes
}

/// `TryFrom<Value>` for `Vec<Value>`: the items of an array, in order, or the
/// value handed back when it is no array.
#[verifier::external_body]
pub(crate) fn take_array(value: Value) -> (r: Result<Vec<Value>, Value>)
    ensures
        match r {
            Ok(items) => value_content(value) == Msg::Array(contents_of(items@)),
            Err(same) => value_content(same) == value_content(value) && !(value_content(
                value,
            ) is Array),
        },
{
    Vec::<Value>::try_from(value)
}

/// `TryFrom<Value>` for `Vec<(Value, Value)>`: the pairs of a map, in order,
/// or the value handed back when it is no map.
#[verifier::external_body]
pub(crate) fn take_map(value: Value) -> (r: Result<Vec<(Value, Value)>, Value>)
    ensures
        match r {
            Ok(pairs) => value_content(value) == Msg::Mapping(pair_contents_of(pairs@)),
            Err(same) => value_content(same) == value_content(value) && !(value_content(
                value,
            ) is Mapping),
        },
{
    Vec::<(Value, Value)>::try_from(value)
}

/// Moves the payload of an `rmpv::Value` that holds no other values into the
/// message of the same kind. A float goes by its bits; a string that is not
/// UTF-8 comes out as its bytes.
#[verifier::external_body]
pub(crate) fn leaf_message(value: Value) -> (message: Message)
    requires
        !(value_content(value) is Array),
        !(value_content(value) is Mapping),
    ensures
        message@ == value_content(value),
{
    match value {
        Value::Boolean(b) => Message::Boolean(b),
        Value::Integer(i) if i.is_u64() => Message::PosInt(i.as_u64().unwrap_or_default()),
        Value::Integer(i) => Message::NegInt(i.as_i64().unwrap_or_default()),
        Value::F32(x) => Message::F32(x.to_bits()),
        Value::F64(x) => Message::F64(x.to_bits()),
        Value::String(s) if s.is_str() => Message::String(s.into_str().unwrap_or_default()),
        Value::String(s) => Message::Binary(s.into_bytes()),
        Value::Binary(b) => Message::Binary(b),
        Value::Ext(tag, data) => Message::Ext(tag, data),
        _ => Message::Nil,
    }
}

/// `Value::Array` around its items.
#[verifier::external_body]
pub(crate) fn array_value(items: Vec<Value>) -> (value: Value)
    ensures
        value_content(value) == Msg::Array(contents_of(items@)),
{
    Value::Array(items)
}

/// `Value::Map` around its pairs.
#[verifier::external_body]
pub(crate) fn map_value(pairs: Vec<(Value, Value)>) -> (value: Value)
    ensures
        value_content(value) == Msg::Mapping(pair_contents_of(pairs@)),
{
    Value::Map(pairs)
}

/// Moves the payload of a message that holds no other messages into the
/// `rmpv::Value` of the same kind. An integer goes through `Value::from`, a
/// float is rebuilt from its bits.
#[verifier::external_body]
pub(crate) fn leaf_value(message: Message) -> (value: Value)
    requires
        !(message is Array),
        !(message is Mapping),
    ensures
        value_content(value) == message@,
{
    match message {
        Message::Boolean(b) => Value::Boolean(b),
        Message::PosInt(n) => Value::from(n),
        Message::NegInt(n) => Value::from(n),
        Message::F32(bits) => Value::F32((&bits.to_be_bytes()[..]).get_f32()),
        Message::F64(bits) => Value::F64((&bits.to_be_bytes()[..]).get_f64()),
        Message::String(s) => Value::from(s),
        Message::Binary(b) => Value::Binary(b),
        Message::Ext(tag, data) => Value::Ext(tag, data),
        _ => Value::Nil,
    }
}

} // verus!
