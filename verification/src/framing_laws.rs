//! What holds of framing and deframing together.
use bytes::Bytes;
use vstd::prelude::*;

use crate::framing::{
    be_bytes, bytes_of, fits_frame, frame, frames, front, held_after, is_popped, leftover, length_field,
    meets_compressed, messages, DeframerCall, Front,
};
use crate::status::{Code, Status};

verus! {

/// The header of a message's frame holds the length of the message.
proof fn header_holds_length(payload: Seq<u8>, tail: Seq<u8>)
    requires
        fits_frame(payload),
    ensures
        length_field(frame(payload) + tail) == payload.len(),
{
    let n = payload.len() as u32;
    let s = frame(payload) + tail;
    assert(s[1] == be_bytes(n)[0] && s[2] == be_bytes(n)[1] && s[3] == be_bytes(n)[2] && s[4]
        == be_bytes(n)[3]);
    let a = n / 0x100_0000;
    let b = n / 0x1_0000 % 0x100;
    let c = n / 0x100 % 0x100;
    let d = n % 0x100;
    assert(a < 0x100 && a * 0x100_0000 + b * 0x1_0000 + c * 0x100 + d == n) by (bit_vector)
        requires
            a == n / 0x100_0000,
            b == n / 0x1_0000 % 0x100,
            c == n / 0x100 % 0x100,
            d == n % 0x100,
    ;
}

/// The deframer gives back what was framed: at the front of a stream that starts with the frame of a
/// message stands that message, and behind it the rest of the stream.
pub proof fn deframing_undoes_framing(payload: Seq<u8>, tail: Seq<u8>)
    requires
        fits_frame(payload),
    ensures
        front(frame(payload) + tail) == (Front::Frame { payload, rest: tail }),
{
    let s = frame(payload) + tail;
    header_holds_length(payload, tail);
    assert(s.subrange(5, 5 + payload.len() as int) =~= payload);
    assert(s.skip(5 + payload.len() as int) =~= tail);
}

/// Framing gives back what was deframed: a stream with a message at its front starts with the frame
/// of that message.
pub proof fn framing_undoes_deframing(s: Seq<u8>)
    requires
        front(s) is Frame,
    ensures
        s == frame(front(s)->payload) + front(s)->rest,
        fits_frame(front(s)->payload),
{
    let payload = front(s)->payload;
    let (b1, b2, b3, b4) = (s[1] as u32, s[2] as u32, s[3] as u32, s[4] as u32);
    assert(payload.len() == length_field(s));
    let n = payload.len() as u32;
    assert(n / 0x100_0000 == b1 && n / 0x1_0000 % 0x100 == b2 && n / 0x100 % 0x100 == b3 && n
        % 0x100 == b4) by (bit_vector)
        requires
            n == b1 * 0x100_0000 + b2 * 0x1_0000 + b3 * 0x100 + b4,
            b1 < 0x100,
            b2 < 0x100,
            b3 < 0x100,
            b4 < 0x100,
    ;
    assert(s =~= frame(payload) + front(s)->rest);
}

/// A stream made of frames is read back message by message, and then read on behind them.
pub proof fn deframing_undoes_framing_of_many(payloads: Seq<Seq<u8>>, tail: Seq<u8>)
    requires
        forall|i: int| 0 <= i < payloads.len() ==> fits_frame(#[trigger] payloads[i]),
    ensures
        messages(frames(payloads) + tail) == payloads + messages(tail),
        leftover(frames(payloads) + tail) == leftover(tail),
    decreases payloads.len(),
{
    if payloads.len() == 0 {
        assert(frames(payloads) + tail =~= tail);
        assert(payloads + messages(tail) =~= messages(tail));
    } else {
        let more = frames(payloads.drop_first()) + tail;
        assert(frames(payloads) + tail =~= frame(payloads.first()) + more);
        deframing_undoes_framing(payloads.first(), more);
        deframing_undoes_framing_of_many(payloads.drop_first(), tail);
        assert(payloads + messages(tail) =~= seq![payloads.first()] + (payloads.drop_first()
            + messages(tail)));
    }
}

/// No byte is lost: a stream is the frames of its messages, and what is left behind them.
pub proof fn stream_is_messages_and_leftover(s: Seq<u8>)
    ensures
        s == frames(messages(s)) + leftover(s),
        front(leftover(s)) !is Frame,
    decreases s.len(),
{
    match front(s) {
        Front::Frame { payload, rest } => {
            framing_undoes_deframing(s);
            stream_is_messages_and_leftover(rest);
            assert(messages(s).drop_first() =~= messages(rest));
            assert(s =~= frames(messages(s)) + leftover(s));
        },
        _ => {
            assert(s =~= frames(messages(s)) + leftover(s));
        },
    }
}

/// More bytes do not change what the front of a stream is, once it is known.
pub proof fn front_stays(s: Seq<u8>, more: Seq<u8>)
    ensures
        front(s) is Compressed ==> front(s + more) is Compressed,
        front(s) matches Front::Frame { payload, rest } ==> front(s + more) == (Front::Frame {
            payload,
            rest: rest + more,
        }),
{
    if let Front::Frame { payload, rest } = front(s) {
        let end = 5 + length_field(s);
        assert((s + more).subrange(5, end) =~= payload);
        assert((s + more).skip(end) =~= rest + more);
    }
}

/// It does not matter how a stream is cut into chunks: reading the messages of a first part, and
/// then those of what is left of it with the second part behind, reads the messages of the whole.
/// Where the first part ends at a compressed frame, so does the whole.
pub proof fn chunks_do_not_matter(s: Seq<u8>, more: Seq<u8>)
    ensures
        messages(s + more) == messages(s) + messages(leftover(s) + more),
        leftover(s + more) == leftover(leftover(s) + more),
        meets_compressed(s) ==> meets_compressed(s + more) && messages(s + more) == messages(s),
    decreases s.len(),
{
    match front(s) {
        Front::Frame { payload, rest } => {
            front_stays(s, more);
            chunks_do_not_matter(rest, more);
            assert(messages(s + more) =~= messages(s) + messages(leftover(s) + more));
        },
        _ => {
            front_stays(s, more);
            assert(messages(s + more) =~= messages(s) + messages(leftover(s) + more));
        },
    }
}

/// Pushing two chunks one after the other leaves a deframer with the same bytes as pushing them as
/// one, and pushing nothing changes nothing.
pub proof fn pushes_add_up(held: Seq<u8>, x: Seq<u8>, y: Seq<u8>)
    ensures
        held_after(held_after(held, DeframerCall::Push(x)), DeframerCall::Push(y)) == held_after(
            held,
            DeframerCall::Push(x + y),
        ),
        held_after(held, DeframerCall::Push(x)) == held + x,
        held_after(held, DeframerCall::Push(Seq::empty())) == held,
{
    assert(held + x + y =~= held + (x + y));
    assert(held + Seq::<u8>::empty() =~= held);
}

/// What calls, one after the other, leave a deframer with that held the bytes `held`.
pub open spec fn held_after_all(held: Seq<u8>, calls: Seq<DeframerCall>) -> Seq<u8>
    decreases calls.len(),
{
    if calls.len() == 0 {
        held
    } else {
        held_after_all(held_after(held, calls.first()), calls.drop_first())
    }
}

/// The bytes that are pushed in the course of `calls`.
pub open spec fn pushed(calls: Seq<DeframerCall>) -> Seq<u8>
    decreases calls.len(),
{
    if calls.len() == 0 {
        Seq::empty()
    } else {
        match calls.first() {
            DeframerCall::Push(chunk) => chunk + pushed(calls.drop_first()),
            DeframerCall::Pop => pushed(calls.drop_first()),
        }
    }
}

/// What the pops among `calls` find, on a deframer that held the bytes `held`.
pub open spec fn found(held: Seq<u8>, calls: Seq<DeframerCall>) -> Seq<Front>
    decreases calls.len(),
{
    if calls.len() == 0 {
        Seq::empty()
    } else {
        let more = found(held_after(held, calls.first()), calls.drop_first());
        match calls.first() {
            DeframerCall::Push(_) => more,
            DeframerCall::Pop => seq![front(held)] + more,
        }
    }
}

/// The messages among what pops found.
pub open spec fn messages_found(fronts: Seq<Front>) -> Seq<Seq<u8>>
    decreases fronts.len(),
{
    if fronts.len() == 0 {
        Seq::empty()
    } else {
        match fronts.first() {
            Front::Frame { payload, .. } => seq![payload] + messages_found(fronts.drop_first()),
            _ => messages_found(fronts.drop_first()),
        }
    }
}

/// However pushes and pops follow each other, the messages that are popped are the first ones of the
/// stream, in order, and the deframer keeps the rest of it. A pop fails only where the stream meets
/// compressed data.
pub proof fn pops_give_the_messages_of_the_stream(held: Seq<u8>, calls: Seq<DeframerCall>)
    ensures
        ({
            let stream = held + pushed(calls);
            let kept = held_after_all(held, calls);
            &&& messages(stream) == messages_found(found(held, calls)) + messages(kept)
            &&& leftover(stream) == leftover(kept)
            &&& forall|i: int|
                #![trigger found(held, calls)[i]]
                0 <= i < found(held, calls).len() && found(held, calls)[i] is Compressed
                    ==> meets_compressed(stream)
        }),
    decreases calls.len(),
{
    let stream = held + pushed(calls);
    if calls.len() == 0 {
        assert(stream =~= held);
        assert(messages(stream) =~= messages_found(found(held, calls)) + messages(held));
    } else {
        let rest = calls.drop_first();
        let next = held_after(held, calls.first());
        let more = found(next, rest);
        pops_give_the_messages_of_the_stream(next, rest);
        match calls.first() {
            DeframerCall::Push(chunk) => {
                assert(stream =~= next + pushed(rest));
            },
            DeframerCall::Pop => {
                let all = found(held, calls);
                assert(all.drop_first() =~= more);
                front_stays(held, pushed(rest));
                assert(messages(stream) =~= messages_found(all) + messages(
                    held_after_all(held, calls),
                ));
                assert forall|i: int|
                    #![trigger all[i]]
                    0 <= i < all.len() && all[i] is Compressed implies meets_compressed(stream) by {
                    if i > 0 {
                        assert(all[i] == more[i - 1]);
                    }
                }
            },
        }
    }
}

/// What was framed is popped: however the frames of `payloads` are cut into chunks, and wherever pops
/// stand between the pushes, the messages that are popped are the first ones of `payloads`, in order,
/// and no pop fails. They are all of them as soon as no whole frame is left; then the deframer is
/// empty, so that every further pop finds nothing.
pub proof fn framed_messages_are_popped(payloads: Seq<Seq<u8>>, calls: Seq<DeframerCall>)
    requires
        forall|i: int| 0 <= i < payloads.len() ==> fits_frame(#[trigger] payloads[i]),
        pushed(calls) == frames(payloads),
    ensures
        ({
            let fronts = found(Seq::empty(), calls);
            let got = messages_found(fronts);
            let kept = held_after_all(Seq::empty(), calls);
            &&& got.len() <= payloads.len()
            &&& got == payloads.take(got.len() as int)
            &&& forall|i: int|
                #![trigger fronts[i]]
                0 <= i < fronts.len() ==> fronts[i] !is Compressed
            &&& front(kept) !is Frame <==> got == payloads
            &&& got == payloads ==> kept == Seq::<u8>::empty() && front(kept) is Incomplete
        }),
{
    let none = Seq::<u8>::empty();
    let fronts = found(none, calls);
    let got = messages_found(fronts);
    let kept = held_after_all(none, calls);
    pops_give_the_messages_of_the_stream(none, calls);
    deframing_undoes_framing_of_many(payloads, none);
    assert(none + pushed(calls) =~= frames(payloads));
    assert(frames(payloads) + none =~= frames(payloads));
    assert(payloads =~= got + messages(kept));
    assert(got =~= payloads.take(got.len() as int));
    if front(kept) is Frame {
        assert(messages(kept).len() > 0);
        assert(got.len() < payloads.len());
    } else {
        assert(got =~= payloads);
    }
}

/// The frame of a message is five bytes and the message: a zero, and the length of the message in four
/// bytes, the highest first.
pub proof fn a_frame_is_a_header_and_the_message(payload: Seq<u8>)
    ensures
        frame(payload).len() == 5 + payload.len(),
        frame(payload)[0] == 0,
        frame(payload)[1] * 0x100_0000 + frame(payload)[2] * 0x1_0000 + frame(payload)[3] * 0x100
            + frame(payload)[4] == payload.len() % 0x1_0000_0000,
        frame(payload).skip(5) == payload,
{
    let f = frame(payload);
    let n = (payload.len() % 0x1_0000_0000) as u32;
    assert(f[1] == be_bytes(n)[0] && f[2] == be_bytes(n)[1] && f[3] == be_bytes(n)[2] && f[4]
        == be_bytes(n)[3]);
    let a = n / 0x100_0000;
    let b = n / 0x1_0000 % 0x100;
    let c = n / 0x100 % 0x100;
    let d = n % 0x100;
    assert(a < 0x100 && a * 0x100_0000 + b * 0x1_0000 + c * 0x100 + d == n) by (bit_vector)
        requires
            a == n / 0x100_0000,
            b == n / 0x1_0000 % 0x100,
            c == n / 0x100 % 0x100,
            d == n % 0x100,
    ;
    assert(f.skip(5) =~= payload);
}

/// A message is refused as compressed exactly where its header is there and does not start with a
/// zero.
pub proof fn compressed_is_what_does_not_start_with_zero(s: Seq<u8>)
    ensures
        front(s) is Compressed <==> s.len() >= 5 && s[0] != 0,
{
}

/// As long as a byte of a frame is missing, there is no message.
pub proof fn part_of_a_frame_is_no_message(payload: Seq<u8>, n: int)
    requires
        fits_frame(payload),
        0 <= n < 5 + payload.len(),
    ensures
        front(frame(payload).take(n)) is Incomplete,
{
    let s = frame(payload).take(n);
    header_holds_length(payload, Seq::empty());
    assert(frame(payload) + Seq::<u8>::empty() =~= frame(payload));
    if n >= 5 {
        assert(s[0] == 0);
        assert(length_field(s) == length_field(frame(payload)));
    }
}

/// What is not compressed and not yet a message can still become one: it is the start of a frame.
pub proof fn what_is_incomplete_starts_a_frame(s: Seq<u8>)
    requires
        front(s) is Incomplete,
        s.len() >= 5,
    ensures
        exists|payload: Seq<u8>|
            fits_frame(payload) && s.len() < 5 + payload.len() && s == #[trigger] frame(
                payload,
            ).take(s.len() as int),
{
    let n = length_field(s);
    let payload = s.skip(5) + Seq::new((n - (s.len() - 5)) as nat, |i: int| 0u8);
    assert(payload.len() == n);
    let f = s.take(5) + payload;
    assert(length_field(f) == n);
    assert(f.subrange(5, 5 + n) =~= payload);
    assert(front(f) is Frame);
    framing_undoes_deframing(f);
    assert(front(f)->rest =~= Seq::<u8>::empty());
    assert(f =~= frame(payload));
    assert(s =~= frame(payload).take(s.len() as int));
}

/// A pop hands out the message at the front and takes its frame, and nothing else, off the bytes. It
/// hands out nothing where the message is not all there, and says `UNIMPLEMENTED` where the message is
/// compressed; either way it takes nothing.
pub proof fn a_pop_takes_the_message_at_the_front(
    held: Seq<u8>,
    kept: Seq<u8>,
    r: Result<Option<Bytes>, Status>,
)
    requires
        is_popped(front(held), r),
        kept == held_after(held, DeframerCall::Pop),
    ensures
        r matches Ok(Some(b)) ==> fits_frame(bytes_of(b)) && held == frame(bytes_of(b)) + kept,
        r matches Ok(None) ==> kept == held && !(held.len() >= 5 && held[0] != 0),
        r is Err <==> held.len() >= 5 && held[0] != 0,
        r matches Err(status) ==> kept == held && status.code == Code::Unimplemented
            && status.message@
            == "Compressed incoming request data is not supported by tonic-grpc adapter"@,
        forall|payload: Seq<u8>, tail: Seq<u8>|
            fits_frame(payload) && held == #[trigger] (frame(payload) + tail) ==> {
                &&& r matches Ok(Some(b)) && bytes_of(b) == payload
                &&& kept == tail
            },
{
    if front(held) is Frame {
        framing_undoes_deframing(held);
    }
    assert forall|payload: Seq<u8>, tail: Seq<u8>|
        fits_frame(payload) && held == #[trigger] (frame(payload) + tail) implies {
        &&& r matches Ok(Some(b)) && bytes_of(b) == payload
        &&& kept == tail
    } by {
        deframing_undoes_framing(payload, tail);
    }
}

} // verus!
