use crate::message::{nesting, Message, Msg};
use crate::wire::{
    buffer_advance, buffer_bytes, buffer_extend, buffered, msgpack_read, msgpack_written,
    read_value, value_content, write_value, ReadFailure, MAX_READ_DEPTH,
};
use bytes::BytesMut;
use rmpv::Value;
use vstd::prelude::*;

verus! {

/// The default for the most bytes that may wait in the buffer for one message.
pub const MAX_MSG_SIZE: usize = 1024;

/// The default for the deepest that one message may nest.
pub const MAX_DEPTH: usize = 8;

/// The deepest limit that a codec can enforce.
pub const MAX_DEPTH_CEILING: usize = 510;

/// The default size of the buffer that a connection reads into and writes
/// from.
pub const RW_BUF_SIZE: usize = 512;

/// Limits that a codec enforces on every message it frames.
#[derive(Debug, Clone, Copy)]
pub struct Codec {
    /// The most bytes that may wait in the buffer for one message.
    pub max_msg_size: usize,
    /// The deepest that one message may nest: the most arrays and mappings
    /// that may stand one inside the other.
    pub max_depth: usize,
}

/// Why a byte stream can no longer be framed. None of these can be recovered
/// from: the connection that met one is torn down.
#[derive(Debug, Clone, Copy, PartialEq, Eq, Structural)]
pub enum CodecError {
    /// More bytes are buffered than one message may have.
    Oversized,
    /// A value nests deeper than the codec allows.
    DepthExceeded,
    /// The bytes cannot form a value.
    Malformed,
}

/// What the head of a byte buffer amounts to.
pub enum Framing {
    /// A valid but incomplete prefix: wait for more bytes.
    NeedMoreData,
    /// One complete message, and the number of bytes it occupies.
    Frame(Msg, nat),
    /// The stream is beyond repair.
    Rejected(CodecError),
}

impl CodecError {
    /// The error that a failed read amounts to, if it is one: a value cut
    /// short is no error, the rest of it may still arrive.
    pub open spec fn spec_of_failure(failure: ReadFailure) -> Option<CodecError> {
        match failure {
            ReadFailure::Truncated => None,
            ReadFailure::TooDeep => Some(CodecError::DepthExceeded),
            ReadFailure::Invalid => Some(CodecError::Malformed),
        }
    }

    /// Tells a read that must wait (`None`) from one that has failed for
    /// good.
    #[verifier::when_used_as_spec(spec_of_failure)]
    pub fn of_failure(failure: ReadFailure) -> (error: Option<CodecError>)
        ensures
            error == Self::spec_of_failure(failure),
    {
        match failure {
            ReadFailure::Truncated => None,
            ReadFailure::TooDeep => Some(CodecError::DepthExceeded),
            ReadFailure::Invalid => Some(CodecError::Malformed),
        }
    }

    /// A line of text that names the error.
    pub fn describe(&self) -> (text: &'static str)
        ensures
            text@ == match *self {
                CodecError::Oversized => "Message exceeded maximum size"@,
                CodecError::DepthExceeded => "Structure depth exceeded"@,
                CodecError::Malformed => "Malformed message"@,
            },
    {
        match self {
            CodecError::Oversized => "Message exceeded maximum size",
            CodecError::DepthExceeded => "Structure depth exceeded",
            CodecError::Malformed => "Malformed message",
        }
    }
}

impl Codec {
    /// A codec with the default limits: at most 1024 buffered bytes per
    /// message, which nests at most 8 deep.
    pub fn new() -> (codec: Self)
        ensures
            codec.max_msg_size == 1024,
            codec.max_depth == 8,
    {
        Codec { max_msg_size: MAX_MSG_SIZE, max_depth: MAX_DEPTH }
    }

    /// Whether the depth limit is one that the codec can enforce. The reader
    /// calls itself for every level, so there is a deepest limit that it
    /// can be asked to follow; `decode` takes no codec beyond it.
    pub open spec fn spec_within_reach(&self) -> bool {
        self.max_depth <= MAX_DEPTH_CEILING
    }

    /// Whether the depth limit is one that the codec can enforce.
    #[verifier::when_used_as_spec(spec_within_reach)]
    pub fn within_reach(&self) -> (ok: bool)
        ensures
            ok == self.spec_within_reach(),
    {
        self.max_depth <= MAX_DEPTH_CEILING
    }

    /// The count of nested reads that the reader is allowed: twice the depth
    /// limit and three more. The reader takes one read for a value and one
    /// more for what an array or a mapping holds, and at most two more for
    /// the bytes of the innermost value; what it lets through is then held
    /// to the depth limit itself.
    pub open spec fn spec_reader_depth(&self) -> usize {
        (2 * self.max_depth + 3) as usize
    }

    /// The count of nested reads that the reader is allowed.
    #[verifier::when_used_as_spec(spec_reader_depth)]
    pub fn reader_depth(&self) -> (depth: usize)
        requires
            self.within_reach(),
        ensures
            depth == self.spec_reader_depth(),
            depth <= MAX_READ_DEPTH,
    {
        2 * self.max_depth + 3
    }

    /// What this codec makes of one read off the head of the buffer: a value
    /// that nests within the depth limit is a frame, a deeper one is
    /// rejected; a value cut short waits; every other failure is final.
    pub open spec fn settled(self, read: Result<(Msg, nat), ReadFailure>) -> Framing {
        match read {
            Ok((content, used)) => if nesting(content) <= self.max_depth {
                Framing::Frame(content, used)
            } else {
                Framing::Rejected(CodecError::DepthExceeded)
            },
            Err(failure) => match CodecError::spec_of_failure(failure) {
                Some(error) => Framing::Rejected(error),
                None => Framing::NeedMoreData,
            },
        }
    }

    /// What this codec makes of a buffer that holds `bytes`. The size limit
    /// is tested first, on all that is buffered; an empty buffer waits; the
    /// rest is decided by reading one value off the head.
    pub open spec fn framing(self, bytes: Seq<u8>) -> Framing {
        if bytes.len() > self.max_msg_size {
            Framing::Rejected(CodecError::Oversized)
        } else if bytes.len() == 0 {
            Framing::NeedMoreData
        } else {
            self.settled(msgpack_read(bytes, self.reader_depth()))
        }
    }

    /// Whether `result` and the buffer it left are what `framing` calls for
    /// on a buffer that held `before`: only a frame takes bytes out, and
    /// exactly its own; the message handed out has the frame's value, with
    /// every integer in its one form.
    pub open spec fn delivers(
        framing: Framing,
        before: Seq<u8>,
        after: Seq<u8>,
        result: Result<Option<Message>, CodecError>,
    ) -> bool {
        match framing {
            Framing::NeedMoreData => result matches Ok(None) && after == before,
            Framing::Frame(content, used) => {
                &&& result matches Ok(Some(message))
                &&& message@ == content
                &&& message.canonical()
                &&& used <= before.len()
                &&& after == before.skip(used as int)
            },
            Framing::Rejected(error) => result == Err::<Option<Message>, CodecError>(error)
                && after == before,
        }
    }

    /// Settles one read off the head of `src`: hands out the value read if
    /// it nests within the depth limit, and takes its bytes out of the
    /// buffer; says what a failed read amounts to.
    pub fn settle_read(&self, read: Result<(Value, usize), ReadFailure>, src: &mut BytesMut) -> (result:
        Result<Option<Message>, CodecError>)
        requires
            read matches Ok((_, used)) ==> used <= buffered(*old(src)).len(),
        ensures
            Self::delivers(
                self.settled(
                    match read {
                        Ok((value, used)) => Ok((value_content(value), used as nat)),
                        Err(failure) => Err(failure),
                    },
                ),
                buffered(*old(src)),
                buffered(*final(src)),
                result,
            ),
    {
        match read {
            Ok((value, used)) => {
                let message = Message::from_value(value);
                if message.nests_within(self.max_depth) {
                    buffer_advance(src, used);
                    Ok(Some(message))
                } else {
                    Err(CodecError::DepthExceeded)
                }
            },
            Err(failure) => match CodecError::of_failure(failure) {
                Some(error) => Err(error),
                None => Ok(None),
            },
        }
    }

    /// Takes one message off the head of `src`, if a whole one is there.
    ///
    /// `Ok(Some(message))` removes exactly the bytes of that message and
    /// leaves what follows them. `Ok(None)` and every error leave the buffer
    /// as it was.
    pub fn decode(&self, src: &mut BytesMut) -> (result: Result<Option<Message>, CodecError>)
        requires
            self.within_reach(),
        ensures
            Self::delivers(
                self.framing(buffered(*old(src))),
                buffered(*old(src)),
                buffered(*final(src)),
                result,
            ),
    {
        let len = buffer_bytes(src).len();
        if len > self.max_msg_size {
            return Err(CodecError::Oversized);
        }
        if len == 0 {
            return Ok(None);
        }
        let read = read_value(buffer_bytes(src), self.reader_depth());
        self.settle_read(read, src)
    }

    /// Appends the encoding of `msg` to `buf`. The encoding marks its own
    /// end, so nothing is put before or after it.
    pub fn encode(&self, msg: Message, buf: &mut BytesMut)
        ensures
            buffered(*final(buf)) == buffered(*old(buf)) + msgpack_written(msg@),
    {
        let value = msg.into_value();
        let data = write_value(&value);
        buffer_extend(buf, data);
    }
}

/// A message whose encoding is longer than the codec's size limit is
/// rejected as oversized once it is buffered, whatever follows it.
pub proof fn lemma_oversized_message_is_rejected(codec: Codec, content: Msg, rest: Seq<u8>)
    requires
        msgpack_written(content).len() > codec.max_msg_size,
    ensures
        codec.framing(msgpack_written(content) + rest) == Framing::Rejected(CodecError::Oversized),
{
}

/// A frame is only ever taken from a buffer that holds something and no
/// more than the size limit, and it nests within the depth limit: no framed
/// message breaks a limit.
pub proof fn lemma_frames_keep_the_limits(codec: Codec, bytes: Seq<u8>)
    requires
        codec.framing(bytes) is Frame,
    ensures
        0 < bytes.len() <= codec.max_msg_size,
        nesting(codec.framing(bytes)->Frame_0) <= codec.max_depth,
{
}

/// The depth limit counts the message's own nesting: of what the reader
/// reads off a buffer within the size limit, a value exactly as deep as the
/// limit is framed, and a value any deeper is rejected for its depth.
pub proof fn lemma_depth_limit_is_exact(codec: Codec, bytes: Seq<u8>, content: Msg, used: nat)
    requires
        0 < bytes.len() <= codec.max_msg_size,
        msgpack_read(bytes, codec.reader_depth()) == Ok::<(Msg, nat), ReadFailure>((content, used)),
    ensures
        nesting(content) <= codec.max_depth ==> codec.framing(bytes) == Framing::Frame(
            content,
            used,
        ),
        nesting(content) > codec.max_depth ==> codec.framing(bytes) == Framing::Rejected(
            CodecError::DepthExceeded,
        ),
{
}

/// The codec stands in no message's way: where the reader reads the encoding
/// of `content` back as `content` and all of it, and the message keeps both
/// limits, the encoding is framed as `content` and nothing of it stays
/// behind.
pub proof fn lemma_readable_encoding_is_framed(codec: Codec, content: Msg)
    requires
        0 < msgpack_written(content).len() <= codec.max_msg_size,
        nesting(content) <= codec.max_depth,
        msgpack_read(msgpack_written(content), codec.reader_depth()) == Ok::<(Msg, nat), ReadFailure>(
            (content, msgpack_written(content).len()),
        ),
    ensures
        codec.framing(msgpack_written(content)) == Framing::Frame(
            content,
            msgpack_written(content).len(),
        ),
        msgpack_written(content).skip(msgpack_written(content).len() as int) == Seq::<u8>::empty(),
{
    assert(msgpack_written(content).skip(msgpack_written(content).len() as int) =~= Seq::<
        u8,
    >::empty());
}

/// Whether the reader, allowed `depth` nested reads, reads `bytes` as
/// `content` and all of it, and finds every shorter head of `bytes` cut
/// short.
pub open spec fn reads_as_one(bytes: Seq<u8>, depth: usize, content: Msg) -> bool {
    &&& msgpack_read(bytes, depth) == Ok::<(Msg, nat), ReadFailure>((content, bytes.len()))
    &&& forall|k: int|
        0 < k < bytes.len() ==> msgpack_read(#[trigger] bytes.take(k), depth) == Err::<
            (Msg, nat),
            ReadFailure,
        >(ReadFailure::Truncated)
}

/// What a reading side has come to: the bytes that wait in its buffer, the
/// messages it has handed out, and whether it has met an error, after which
/// nothing changes any more.
pub struct Intake {
    pub waiting: Seq<u8>,
    pub delivered: Seq<Msg>,
    pub failed: bool,
}

/// What a reading side has come to when the first `fed` of `bytes` have
/// arrived one at a time, with one try at framing after each.
pub open spec fn fed_one_by_one(codec: Codec, bytes: Seq<u8>, fed: nat) -> Intake
    decreases fed,
{
    if fed == 0 || fed > bytes.len() {
        Intake { waiting: Seq::empty(), delivered: Seq::empty(), failed: false }
    } else {
        let before = fed_one_by_one(codec, bytes, (fed - 1) as nat);
        let waiting = before.waiting.push(bytes[fed - 1]);
        if before.failed {
            before
        } else {
            match codec.framing(waiting) {
                Framing::NeedMoreData => Intake { waiting, ..before },
                Framing::Frame(content, used) => Intake {
                    waiting: waiting.skip(used as int),
                    delivered: before.delivered.push(content),
                    failed: false,
                },
                Framing::Rejected(_) => Intake { waiting, failed: true, ..before },
            }
        }
    }
}

/// While a message is still arriving, the codec waits: where the reader
/// reads `bytes` as one message that keeps both limits, every shorter head
/// of `bytes` is waited on, and neither framed nor rejected.
pub proof fn lemma_head_of_a_message_waits(codec: Codec, bytes: Seq<u8>, content: Msg, k: int)
    requires
        reads_as_one(bytes, codec.reader_depth(), content),
        bytes.len() <= codec.max_msg_size,
        0 <= k < bytes.len(),
    ensures
        codec.framing(bytes.take(k)) is NeedMoreData,
{
}

/// Bytes that arrive one at a time are framed like bytes that arrive at
/// once: where the reader reads `bytes` as one message that keeps both
/// limits, feeding them byte by byte hands out nothing and rejects nothing
/// until the last byte, and with the last byte hands out that one message
/// and leaves the buffer empty.
pub proof fn lemma_byte_by_byte_is_as_whole(codec: Codec, bytes: Seq<u8>, content: Msg, fed: nat)
    requires
        reads_as_one(bytes, codec.reader_depth(), content),
        0 < bytes.len() <= codec.max_msg_size,
        nesting(content) <= codec.max_depth,
        fed <= bytes.len(),
    ensures
        codec.framing(bytes) == Framing::Frame(content, bytes.len()),
        fed < bytes.len() ==> fed_one_by_one(codec, bytes, fed) == (Intake {
            waiting: bytes.take(fed as int),
            delivered: Seq::empty(),
            failed: false,
        }),
        fed == bytes.len() ==> fed_one_by_one(codec, bytes, fed) == (Intake {
            waiting: Seq::empty(),
            delivered: seq![content],
            failed: false,
        }),
    decreases fed,
{
    if fed == 0 {
        assert(bytes.take(0) =~= Seq::<u8>::empty());
    } else {
        lemma_byte_by_byte_is_as_whole(codec, bytes, content, (fed - 1) as nat);
        let before = fed_one_by_one(codec, bytes, (fed - 1) as nat);
        let waiting = before.waiting.push(bytes[fed - 1]);
        assert(waiting =~= bytes.take(fed as int));
        if fed < bytes.len() {
            assert(codec.framing(bytes.take(fed as int)) is NeedMoreData);
        } else {
            assert(bytes.take(fed as int) =~= bytes);
            assert(bytes.skip(bytes.len() as int) =~= Seq::<u8>::empty());
            assert(Seq::<Msg>::empty().push(content) =~= seq![content]);
        }
    }
}

} // verus!
