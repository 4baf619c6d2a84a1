//! Length-prefixed message framing.
//!
//! On the wire a message is a frame: one byte that says whether the message is compressed (it never
//! is, here), the length of the message in four big-endian bytes, and the message.
use bytes::{Bytes, BytesMut};
use vstd::prelude::*;

use crate::buffer::{
    buffer_advance, buffer_at, buffer_extend, buffer_freeze, buffer_len, buffer_new, buffer_put_u32,
    buffer_put_u8, buffer_split_to, buffer_with_capacity, bytes_clone, bytes_copy_to_bytes,
    bytes_len,
};
pub use crate::buffer::{be_bytes, buffered, bytes_of};
use crate::status::{Code, Status};

verus! {

/// The message of the status that refuses compressed data.
pub const COMPRESSED_UNSUPPORTED: &'static str =
    "Compressed incoming request data is not supported by tonic-grpc adapter";

/// The number of bytes in front of a message.
pub const HEADER_LEN: usize = 5;

/// What the front of a byte stream holds.
pub enum Front {
    /// Not yet a whole frame.
    Incomplete,
    /// A frame that is marked as compressed.
    Compressed,
    /// A whole frame: its message, and the bytes behind it.
    Frame { payload: Seq<u8>, rest: Seq<u8> },
}

/// The length field of a frame header.
pub open spec fn length_field(s: Seq<u8>) -> int
    recommends
        s.len() >= HEADER_LEN,
{
    s[1] * 0x100_0000 + s[2] * 0x1_0000 + s[3] * 0x100 + s[4]
}

/// The front of the stream `s`.
pub open spec fn front(s: Seq<u8>) -> Front {
    if s.len() < HEADER_LEN {
        Front::Incomplete
    } else if s[0] != 0 {
        Front::Compressed
    } else {
        let end = HEADER_LEN + length_field(s);
        if s.len() < end {
            Front::Incomplete
        } else {
            Front::Frame { payload: s.subrange(HEADER_LEN as int, end), rest: s.skip(end) }
        }
    }
}

/// The messages of the whole frames at the start of `s`, up to the first byte that is not part of
/// one.
pub open spec fn messages(s: Seq<u8>) -> Seq<Seq<u8>>
    decreases s.len(),
{
    match front(s) {
        Front::Frame { payload, rest } => seq![payload] + messages(rest),
        _ => Seq::empty(),
    }
}

/// What is left of `s` behind the frames of `messages(s)`.
pub open spec fn leftover(s: Seq<u8>) -> Seq<u8>
    decreases s.len(),
{
    match front(s) {
        Front::Frame { rest, .. } => leftover(rest),
        _ => s,
    }
}

/// Whether reading `s` frame by frame ends at a compressed frame.
pub open spec fn meets_compressed(s: Seq<u8>) -> bool {
    front(leftover(s)) is Compressed
}

/// The frame of a message. The length field holds the low 32 bits of the message's length.
pub open spec fn frame(payload: Seq<u8>) -> Seq<u8> {
    seq![0u8] + be_bytes((payload.len() % 0x1_0000_0000) as u32) + payload
}

/// Messages that a frame can carry: their length fits the length field.
pub open spec fn fits_frame(payload: Seq<u8>) -> bool {
    payload.len() < 0x1_0000_0000
}

/// The frames of several messages, one after the other.
pub open spec fn frames(payloads: Seq<Seq<u8>>) -> Seq<u8>
    decreases payloads.len(),
{
    if payloads.len() == 0 {
        Seq::empty()
    } else {
        frame(payloads.first()) + frames(payloads.drop_first())
    }
}

/// A call of a deframer's method, as a value.
pub enum DeframerCall {
    /// `push`, with these bytes.
    Push(Seq<u8>),
    /// `pop_frame`.
    Pop,
}

/// What a call leaves a deframer with that held the bytes `held`: a push adds its bytes at the end,
/// and a pop takes the frame at the front, if there is a whole one.
pub open spec fn held_after(held: Seq<u8>, call: DeframerCall) -> Seq<u8> {
    match call {
        DeframerCall::Push(chunk) => held + chunk,
        DeframerCall::Pop => match front(held) {
            Front::Frame { rest, .. } => rest,
            _ => held,
        },
    }
}

/// Whether `r` is what a pop returns that finds `found` at the front.
pub open spec fn is_popped(found: Front, r: Result<Option<Bytes>, Status>) -> bool {
    match found {
        Front::Incomplete => r matches Ok(None),
        Front::Compressed => r matches Err(status) && status.is_status(
            Code::Unimplemented,
            COMPRESSED_UNSUPPORTED@,
        ),
        Front::Frame { payload, .. } => r matches Ok(Some(b)) && bytes_of(b) == payload,
    }
}

/// Whether a message can be put into a frame: no buffer holds more than `isize::MAX` bytes.
pub fn fits_in_a_frame(payload: &Bytes) -> (r: bool)
    ensures
        r == (HEADER_LEN + bytes_of(*payload).len() <= isize::MAX),
{
    bytes_len(payload) <= isize::MAX as usize - HEADER_LEN
}

/// Puts a message into a frame.
pub fn frame_message(payload: &Bytes) -> (r: Bytes)
    requires
        HEADER_LEN + bytes_of(*payload).len() <= isize::MAX,
    ensures
        bytes_of(r) == frame(bytes_of(*payload)),
{
    let len: usize = bytes_len(payload);
    let mut framed = buffer_with_capacity(HEADER_LEN + len);
    buffer_put_u8(&mut framed, 0);
    let wide: u64 = len as u64;
    let field: u32 = #[verifier::truncate] (wide as u32);
    assert(field == wide % 0x1_0000_0000) by (bit_vector)
        requires
            field == wide as u32,
    ;
    buffer_put_u32(&mut framed, field);
    buffer_extend(&mut framed, payload);
    assert(buffered(framed) =~= frame(bytes_of(*payload)));
    buffer_freeze(framed)
}

/// An outgoing message that is already serialized.
#[derive(Debug)]
pub struct RawBytesSendMessage(pub Bytes);

impl RawBytesSendMessage {
    /// The bytes to send: those of the message, as they are.
    pub fn encode(&self) -> (r: Result<Bytes, String>)
        ensures
            r matches Ok(b) && bytes_of(b) == bytes_of(self.0),
    {
        Ok(bytes_clone(&self.0))
    }
}

/// A place for an incoming message, which it keeps serialized.
#[derive(Debug)]
pub struct RawBytesRecvMessage {
    pub bytes: Option<Bytes>,
}

impl Default for RawBytesRecvMessage {
    fn default() -> (r: Self)
        ensures
            r.bytes is None,
    {
        RawBytesRecvMessage { bytes: None }
    }
}

impl RawBytesRecvMessage {
    /// Takes all of `data` as the message, in place of any message kept before.
    pub fn decode(&mut self, data: &mut Bytes) -> (r: Result<(), String>)
        ensures
            r is Ok,
            final(self).bytes matches Some(b) && bytes_of(b) == bytes_of(*old(data)),
            bytes_of(*final(data)) == Seq::<u8>::empty(),
    {
        let remaining: usize = bytes_len(data);
        let taken = bytes_copy_to_bytes(data, remaining);
        assert(bytes_of(taken) =~= bytes_of(*old(data)));
        assert(bytes_of(*data) =~= Seq::<u8>::empty());
        self.bytes = Some(taken);
        Ok(())
    }
}

/// Collects the bytes of a body as they come in, and hands out the messages of the frames in them.
#[derive(Debug)]
pub struct FrameDeframer {
    buffer: BytesMut,
}

impl View for FrameDeframer {
    type V = Seq<u8>;

    /// The bytes that were pushed and are not yet handed out.
    closed spec fn view(&self) -> Seq<u8> {
        buffered(self.buffer)
    }
}

impl Default for FrameDeframer {
    fn default() -> (r: Self)
        ensures
            r@ == Seq::<u8>::empty(),
    {
        FrameDeframer::new()
    }
}

impl FrameDeframer {
    /// A deframer that holds no bytes.
    pub fn new() -> (r: Self)
        ensures
            r@ == Seq::<u8>::empty(),
    {
        FrameDeframer { buffer: buffer_new() }
    }

    /// Whether `chunk` can still be pushed: no buffer holds more than `isize::MAX` bytes.
    pub fn has_room(&self, chunk: &Bytes) -> (r: bool)
        ensures
            r == (self@.len() + bytes_of(*chunk).len() <= isize::MAX),
    {
        let held: usize = buffer_len(&self.buffer);
        let limit: usize = isize::MAX as usize;
        held <= limit && bytes_len(chunk) <= limit - held
    }

    /// Adds the next bytes of the body.
    pub fn push(&mut self, chunk: Bytes)
        requires
            old(self)@.len() + bytes_of(chunk).len() <= isize::MAX,
        ensures
            final(self)@ == held_after(old(self)@, DeframerCall::Push(bytes_of(chunk))),
    {
        buffer_extend(&mut self.buffer, &chunk);
    }

    /// Takes out the message of the frame at the front.
    ///
    /// Nothing is taken where the front is not yet a whole frame, nor where it is marked as
    /// compressed, which is an error: compressed data is not supported.
    pub fn pop_frame(&mut self) -> (r: Result<Option<Bytes>, Status>)
        ensures
            is_popped(front(old(self)@), r),
            final(self)@ == held_after(old(self)@, DeframerCall::Pop),
    {
        let held: usize = buffer_len(&self.buffer);
        if held < HEADER_LEN {
            return Ok(None);
        }
        if buffer_at(&self.buffer, 0) != 0 {
            return Err(Status::unimplemented(COMPRESSED_UNSUPPORTED));
        }
        let b1: u32 = buffer_at(&self.buffer, 1) as u32;
        let b2: u32 = buffer_at(&self.buffer, 2) as u32;
        let b3: u32 = buffer_at(&self.buffer, 3) as u32;
        let b4: u32 = buffer_at(&self.buffer, 4) as u32;
        let len: usize = (b1 * 0x100_0000 + b2 * 0x1_0000 + b3 * 0x100 + b4) as usize;
        if held - HEADER_LEN < len {
            return Ok(None);
        }
        let ghost s = self@;
        buffer_advance(&mut self.buffer, HEADER_LEN);
        let taken = buffer_split_to(&mut self.buffer, len);
        assert(buffered(taken) =~= s.subrange(HEADER_LEN as int, HEADER_LEN + len));
        assert(self@ =~= s.skip(HEADER_LEN + len));
        Ok(Some(buffer_freeze(taken)))
    }
}

} // verus!
