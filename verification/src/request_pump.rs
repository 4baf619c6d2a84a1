//! The way of a request's body into a call: the bytes of the body come in, and its messages go out.
use bytes::Bytes;
use vstd::prelude::*;

use crate::framing::{
    bytes_of, fits_frame, frame, frames, front, leftover, meets_compressed, messages, FrameDeframer,
    Front, RawBytesSendMessage, COMPRESSED_UNSUPPORTED,
};
use crate::framing_laws::{
    chunks_do_not_matter, deframing_undoes_framing_of_many, framing_undoes_deframing,
    stream_is_messages_and_leftover,
};
use crate::status::{Code, Status};

verus! {

/// Where a pump stands.
#[derive(Clone, Copy, Debug, PartialEq, Eq, Structural)]
pub enum PumpPhase {
    /// It waits for the next piece of the body.
    Reading,
    /// It waits for a message to be sent, and may hold more.
    Sending,
    /// The body has ended; it waits for a message to be sent, and may hold more.
    Flushing,
    /// It has finished.
    Done,
}

/// What happened to what a pump had asked for.
#[derive(Debug)]
pub enum PumpEvent {
    /// The body went on with these bytes.
    Data(Bytes),
    /// The body went on with a piece that is not data.
    NotData,
    /// The body ended, or failed.
    BodyEnd,
    /// The message was sent.
    Sent,
    /// The message could not be sent.
    SendFailed,
}

/// What a pump asks for.
#[derive(Debug)]
pub enum PumpAction {
    /// Read the next piece of the body.
    Read,
    /// Send this message.
    Send(RawBytesSendMessage),
    /// Nothing more.
    Finish,
    /// Nothing more: the request is refused with this status.
    Refuse(Status),
}

/// A pump as a value: the bytes that it holds, and where it stands.
pub struct PumpState {
    pub held: Seq<u8>,
    pub phase: PumpPhase,
}

/// An event as a value.
pub enum PumpInput {
    Data(Seq<u8>),
    NotData,
    BodyEnd,
    Sent,
    SendFailed,
}

/// An action as a value.
pub enum PumpOutput {
    Read,
    Send(Seq<u8>),
    Finish,
    Refuse,
}

impl View for PumpEvent {
    type V = PumpInput;

    open spec fn view(&self) -> PumpInput {
        match self {
            PumpEvent::Data(b) => PumpInput::Data(bytes_of(*b)),
            PumpEvent::NotData => PumpInput::NotData,
            PumpEvent::BodyEnd => PumpInput::BodyEnd,
            PumpEvent::Sent => PumpInput::Sent,
            PumpEvent::SendFailed => PumpInput::SendFailed,
        }
    }
}

impl PumpAction {
    /// Whether this action is `output`. A request is refused because it holds compressed data.
    pub open spec fn is_output(self, output: PumpOutput) -> bool {
        match self {
            PumpAction::Read => output is Read,
            PumpAction::Send(message) => output == PumpOutput::Send(bytes_of(message.0)),
            PumpAction::Finish => output is Finish,
            PumpAction::Refuse(status) => output is Refuse && status.is_status(
                Code::Unimplemented,
                COMPRESSED_UNSUPPORTED@,
            ),
        }
    }
}

/// Which events can follow on what a pump in this phase asks for.
pub open spec fn awaits(phase: PumpPhase, input: PumpInput) -> bool {
    match phase {
        PumpPhase::Reading => input is Data || input is NotData || input is BodyEnd,
        PumpPhase::Sending | PumpPhase::Flushing => input is Sent || input is SendFailed,
        PumpPhase::Done => false,
    }
}

/// What a pump does that holds the bytes `held` and has nothing left to wait for but the body.
pub open spec fn advance(held: Seq<u8>) -> (PumpState, PumpOutput) {
    match front(held) {
        Front::Frame { payload, rest } => (
            PumpState { held: rest, phase: PumpPhase::Sending },
            PumpOutput::Send(payload),
        ),
        Front::Incomplete => (PumpState { held, phase: PumpPhase::Reading }, PumpOutput::Read),
        Front::Compressed => (PumpState { held, phase: PumpPhase::Done }, PumpOutput::Refuse),
    }
}

/// What a pump does that holds the bytes `held` when the body has ended.
pub open spec fn flush(held: Seq<u8>) -> (PumpState, PumpOutput) {
    match front(held) {
        Front::Frame { payload, rest } => (
            PumpState { held: rest, phase: PumpPhase::Flushing },
            PumpOutput::Send(payload),
        ),
        _ => (PumpState { held, phase: PumpPhase::Done }, PumpOutput::Finish),
    }
}

/// What an event makes of a pump, and what the pump asks for next.
pub open spec fn pump_step(state: PumpState, input: PumpInput) -> (PumpState, PumpOutput) {
    match (state.phase, input) {
        (PumpPhase::Reading, PumpInput::Data(bytes)) => advance(state.held + bytes),
        (PumpPhase::Reading, PumpInput::BodyEnd) => flush(state.held),
        (PumpPhase::Reading, _) => (state, PumpOutput::Read),
        (PumpPhase::Sending, PumpInput::Sent) => advance(state.held),
        (PumpPhase::Flushing, _) => flush(state.held),
        _ => (PumpState { held: state.held, phase: PumpPhase::Done }, PumpOutput::Finish),
    }
}

/// Takes the messages of a request out of its body.
#[derive(Debug)]
pub struct RequestPump {
    deframer: FrameDeframer,
    phase: PumpPhase,
}

impl View for RequestPump {
    type V = PumpState;

    closed spec fn view(&self) -> PumpState {
        PumpState { held: self.deframer@, phase: self.phase }
    }
}

impl RequestPump {
    /// A pump that waits for the first piece of the body.
    pub fn new() -> (r: Self)
        ensures
            r@ == (PumpState { held: Seq::empty(), phase: PumpPhase::Reading }),
    {
        RequestPump { deframer: FrameDeframer::new(), phase: PumpPhase::Reading }
    }

    /// Whether the pump can take `chunk` in: no buffer holds more than `isize::MAX` bytes.
    pub fn has_room(&self, chunk: &Bytes) -> (r: bool)
        ensures
            r == (self@.held.len() + bytes_of(*chunk).len() <= isize::MAX),
    {
        self.deframer.has_room(chunk)
    }

    /// Takes in what happened, and says what to do next.
    pub fn step(&mut self, event: PumpEvent) -> (r: PumpAction)
        requires
            awaits(old(self)@.phase, event@),
            event@ matches PumpInput::Data(bytes) ==> old(self)@.held.len() + bytes.len()
                <= isize::MAX,
        ensures
            final(self)@ == pump_step(old(self)@, event@).0,
            r.is_output(pump_step(old(self)@, event@).1),
    {
        match self.phase {
            PumpPhase::Reading => match event {
                PumpEvent::Data(data) => {
                    self.deframer.push(data);
                    self.send_next()
                },
                PumpEvent::BodyEnd => self.flush_next(),
                _ => PumpAction::Read,
            },
            PumpPhase::Sending => match event {
                PumpEvent::Sent => self.send_next(),
                _ => {
                    self.phase = PumpPhase::Done;
                    PumpAction::Finish
                },
            },
            PumpPhase::Flushing => self.flush_next(),
            PumpPhase::Done => PumpAction::Finish,
        }
    }

    /// Goes on with the message at the front, if there is one.
    fn send_next(&mut self) -> (r: PumpAction)
        ensures
            final(self)@ == advance(old(self)@.held).0,
            r.is_output(advance(old(self)@.held).1),
    {
        match self.deframer.pop_frame() {
            Ok(Some(payload)) => {
                self.phase = PumpPhase::Sending;
                PumpAction::Send(RawBytesSendMessage(payload))
            },
            Ok(None) => {
                self.phase = PumpPhase::Reading;
                PumpAction::Read
            },
            Err(status) => {
                self.phase = PumpPhase::Done;
                PumpAction::Refuse(status)
            },
        }
    }

    /// Goes on with the message at the front, if there is one, when the body has ended.
    fn flush_next(&mut self) -> (r: PumpAction)
        ensures
            final(self)@ == flush(old(self)@.held).0,
            r.is_output(flush(old(self)@.held).1),
    {
        match self.deframer.pop_frame() {
            Ok(Some(payload)) => {
                self.phase = PumpPhase::Flushing;
                PumpAction::Send(RawBytesSendMessage(payload))
            },
            _ => {
                self.phase = PumpPhase::Done;
                PumpAction::Finish
            },
        }
    }
}

/// The messages that a pump sends from `at` on while every message can be sent, until it asks for
/// something else, and how it stands then.
pub open spec fn send_all(at: (PumpState, PumpOutput)) -> (Seq<Seq<u8>>, (PumpState, PumpOutput))
    decreases at.0.held.len(), (if at.1 is Send { 1nat } else { 0nat }),
{
    match at.1 {
        PumpOutput::Send(payload) => {
            let next = pump_step(at.0, PumpInput::Sent);
            let (sent, end) = send_all(next);
            (seq![payload] + sent, end)
        },
        _ => (Seq::empty(), at),
    }
}

/// The messages that a pump in the state `state` sends while the body goes on with `chunks` and every
/// message can be sent, and how it stands then. It takes no further chunk once it has refused the
/// request.
pub open spec fn pump_chunks(state: PumpState, chunks: Seq<Seq<u8>>) -> (
    Seq<Seq<u8>>,
    (PumpState, PumpOutput),
)
    decreases chunks.len(),
{
    if chunks.len() == 0 {
        (Seq::empty(), (state, PumpOutput::Read))
    } else {
        let (sent, end) = send_all(pump_step(state, PumpInput::Data(chunks.first())));
        if end.1 is Read {
            let (more, last) = pump_chunks(end.0, chunks.drop_first());
            (sent + more, last)
        } else {
            (sent, end)
        }
    }
}

/// The state of a pump before the body's first piece.
pub open spec fn pump_start() -> PumpState {
    PumpState { held: Seq::empty(), phase: PumpPhase::Reading }
}

/// A pump that goes on with the bytes `held` sends the messages in them, and then holds what is left.
proof fn send_all_sends_messages(held: Seq<u8>)
    ensures
        send_all(advance(held)).0 == messages(held),
        send_all(advance(held)).1 == if meets_compressed(held) {
            (PumpState { held: leftover(held), phase: PumpPhase::Done }, PumpOutput::Refuse)
        } else {
            (PumpState { held: leftover(held), phase: PumpPhase::Reading }, PumpOutput::Read)
        },
    decreases held.len(),
{
    match front(held) {
        Front::Frame { payload, rest } => {
            send_all_sends_messages(rest);
            reveal_with_fuel(send_all, 2);
        },
        _ => {},
    }
}

/// What a pump sends that holds the start of a frame, `held`, and then takes in `chunks`.
proof fn pump_chunks_sends_messages(held: Seq<u8>, chunks: Seq<Seq<u8>>)
    requires
        front(held) is Incomplete,
    ensures
        ({
            let state = PumpState { held, phase: PumpPhase::Reading };
            let (sent, end) = pump_chunks(state, chunks);
            let stream = held + chunks.flatten();
            &&& sent == messages(stream)
            &&& meets_compressed(stream) <==> end.1 is Refuse
            &&& !meets_compressed(stream) ==> end == (
                PumpState { held: leftover(stream), phase: PumpPhase::Reading },
                PumpOutput::Read,
            )
        }),
    decreases chunks.len(),
{
    if chunks.len() == 0 {
        assert(held + chunks.flatten() =~= held);
    } else {
        let so_far = held + chunks.first();
        let more = chunks.drop_first();
        send_all_sends_messages(so_far);
        chunks_do_not_matter(so_far, more.flatten());
        assert(held + chunks.flatten() =~= so_far + more.flatten());
        if !meets_compressed(so_far) {
            stream_is_messages_and_leftover(so_far);
            pump_chunks_sends_messages(leftover(so_far), more);
        }
    }
}

/// However the body of a request is cut into chunks, its messages are sent, all of them and in order.
/// A request that holds compressed data is refused at that place, and only such a request is.
pub proof fn pump_sends_the_messages_of_the_body(chunks: Seq<Seq<u8>>)
    ensures
        pump_chunks(pump_start(), chunks).0 == messages(chunks.flatten()),
        pump_chunks(pump_start(), chunks).1.1 is Refuse <==> meets_compressed(chunks.flatten()),
{
    pump_chunks_sends_messages(Seq::empty(), chunks);
    assert(Seq::<u8>::empty() + chunks.flatten() =~= chunks.flatten());
}

/// The messages of a request arrive as they were put into frames, however the frames are cut into
/// chunks, and the request is not refused.
pub proof fn framed_messages_arrive(payloads: Seq<Seq<u8>>, chunks: Seq<Seq<u8>>)
    requires
        forall|i: int| 0 <= i < payloads.len() ==> fits_frame(#[trigger] payloads[i]),
        chunks.flatten() == frames(payloads),
    ensures
        pump_chunks(pump_start(), chunks).0 == payloads,
        pump_chunks(pump_start(), chunks).1.1 is Read,
{
    let none = Seq::<u8>::empty();
    deframing_undoes_framing_of_many(payloads, none);
    assert(frames(payloads) + none =~= frames(payloads));
    assert(payloads + messages(none) =~= payloads);
    pump_chunks_sends_messages(none, chunks);
    assert(none + chunks.flatten() =~= chunks.flatten());
}

/// When the body ends there is nothing left to send: every whole message was sent as soon as it had
/// come in. What is left of an incomplete message is dropped.
pub proof fn nothing_is_left_at_the_end_of_the_body(chunks: Seq<Seq<u8>>)
    requires
        pump_chunks(pump_start(), chunks).1.1 is Read,
    ensures
        pump_step(pump_chunks(pump_start(), chunks).1.0, PumpInput::BodyEnd).1 is Finish,
{
    pump_chunks_sends_messages(Seq::empty(), chunks);
    let stream = Seq::<u8>::empty() + chunks.flatten();
    stream_is_messages_and_leftover(stream);
}

/// What a pump does on each event. It adds the bytes that come in to those that it holds, and sends the
/// messages at the front of them, one at a time, until none is whole; then it reads on. What is not
/// data changes nothing. Where a message is compressed the request is refused as `UNIMPLEMENTED`. A
/// message that cannot be sent ends the pump. When the body has ended, whole messages are still sent,
/// whether or not sending works, and then the pump ends.
pub proof fn a_pump_sends_what_is_whole(
    state: PumpState,
    input: PumpInput,
    action: PumpAction,
    post: PumpState,
)
    requires
        awaits(state.phase, input),
        post == pump_step(state, input).0,
        action.is_output(pump_step(state, input).1),
    ensures
        ({
            let held = match input {
                PumpInput::Data(bytes) => state.held + bytes,
                _ => state.held,
            };
            let ending = input is BodyEnd || state.phase == PumpPhase::Flushing;
            let failed = input is SendFailed && state.phase == PumpPhase::Sending;
            let looks = !(input is NotData) && !failed;
            &&& action matches PumpAction::Send(message) ==> held == frame(bytes_of(message.0))
                + post.held && fits_frame(bytes_of(message.0)) && post.phase == if ending {
                PumpPhase::Flushing
            } else {
                PumpPhase::Sending
            }
            &&& looks ==> (action is Send <==> front(held) is Frame)
            &&& !(action is Send) ==> post.held == held
            &&& looks && !ending && front(held) is Incomplete ==> action is Read
            &&& looks && !ending && front(held) is Compressed ==> action is Refuse
            &&& looks && ending && !(front(held) is Frame) ==> action is Finish
            &&& input is NotData ==> action is Read && post == state
            &&& failed ==> action is Finish
            &&& action is Read <==> post.phase == PumpPhase::Reading
            &&& action is Finish || action is Refuse <==> post.phase == PumpPhase::Done
            &&& action matches PumpAction::Refuse(status) ==> status.code == Code::Unimplemented
                && status.message@
                == "Compressed incoming request data is not supported by tonic-grpc adapter"@
        }),
{
    let held = match input {
        PumpInput::Data(bytes) => state.held + bytes,
        _ => state.held,
    };
    if front(held) is Frame {
        framing_undoes_deframing(held);
    }
}

/// A pump takes pieces of the body while it reads, and the outcome of sending while it sends; once it
/// has finished it takes nothing.
pub proof fn a_pump_takes_what_it_asked_for(phase: PumpPhase, input: PumpInput)
    ensures
        phase == PumpPhase::Reading ==> (awaits(phase, input) <==> input is Data || input is NotData
            || input is BodyEnd),
        phase == PumpPhase::Sending || phase == PumpPhase::Flushing ==> (awaits(phase, input)
            <==> input is Sent || input is SendFailed),
        phase == PumpPhase::Done ==> !awaits(phase, input),
{
}

/// An event is taken for what it is, with the bytes that it carries.
pub proof fn events_are_taken_for_what_they_are(event: PumpEvent)
    ensures
        event matches PumpEvent::Data(b) ==> event@ == PumpInput::Data(bytes_of(b)),
        event is NotData <==> event@ is NotData,
        event is BodyEnd <==> event@ is BodyEnd,
        event is Sent <==> event@ is Sent,
        event is SendFailed <==> event@ is SendFailed,
{
}

} // verus!
