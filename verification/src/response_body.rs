//! The HTTP body of a response: the messages of a call's response stream, framed again.
use bytes::Bytes;
use vstd::prelude::*;

use crate::buffer::bytes_empty;
use crate::framing::{
    bytes_of, fits_frame, frame, frame_message, leftover, messages, HEADER_LEN,
};
use crate::framing_laws::{
    a_frame_is_a_header_and_the_message, chunks_do_not_matter, deframing_undoes_framing,
};
use crate::metadata::{MetadataMap, ResponseStreamItem, StatusError};
use crate::status::{canonical, Code, Status};

verus! {

/// Where a body stands. `R` is the response stream, and `F` the wait for its next item, which keeps
/// the stream until then.
pub enum ResponseState<R, F> {
    /// Nothing is being waited for. The stream is missing only between being taken and being waited
    /// on.
    Idle(Option<R>),
    /// The next item is being waited for.
    Future(F),
    /// The body has ended.
    Done,
}

/// The HTTP body of a response.
pub struct InvokeResponseBody<R, F> {
    pub state: ResponseState<R, F>,
}

/// A piece of an HTTP body.
#[derive(Debug)]
pub enum BodyFrame {
    Data(Bytes),
    Trailers(MetadataMap),
}

/// What to do next to get a piece of a body.
pub enum BodyStep<R> {
    /// Nothing: the body has ended.
    End,
    /// Wait for the next item of this stream.
    Receive(R),
    /// Go on with the wait that was begun.
    Poll,
}

/// What an item of the response stream gives the body.
pub enum BodyPoll {
    /// The next piece, an error, or the end.
    Ready(Option<Result<BodyFrame, Status>>),
    /// Nothing: another item is needed.
    Again,
}

/// The bytes that came with a message, if any did.
pub open spec fn payload_of(msg_bytes: Option<Bytes>) -> Seq<u8> {
    match msg_bytes {
        Some(b) => bytes_of(b),
        None => Seq::empty(),
    }
}

/// Whether a body ends with this item.
pub open spec fn ends_body(item: ResponseStreamItem) -> bool {
    item is Trailers || item is StreamClosed
}

/// What an item of a response stream gives a body, as a value.
pub enum Piece {
    /// Data.
    Data(Seq<u8>),
    /// Trailers.
    Trailers(MetadataMap),
    /// The error with this number and message.
    Failed(i32, Seq<char>),
    /// The end.
    End,
}

impl View for BodyPoll {
    type V = Option<Piece>;

    /// What this is as a value; `None` where another item is needed.
    open spec fn view(&self) -> Option<Piece> {
        match self {
            BodyPoll::Again => None,
            BodyPoll::Ready(None) => Some(Piece::End),
            BodyPoll::Ready(Some(Ok(BodyFrame::Data(b)))) => Some(Piece::Data(bytes_of(*b))),
            BodyPoll::Ready(Some(Ok(BodyFrame::Trailers(headers)))) => Some(
                Piece::Trailers(*headers),
            ),
            BodyPoll::Ready(Some(Err(status))) => Some(
                Piece::Failed(status.code.number(), status.message@),
            ),
        }
    }
}

/// What an item of a response stream, with the bytes of a message, gives the body: a message a frame
/// with its bytes, trailers themselves or the error in them, the close of the stream the end, and
/// headers nothing.
pub open spec fn piece_of(item: ResponseStreamItem, msg_bytes: Option<Bytes>) -> Option<Piece> {
    match item {
        ResponseStreamItem::Message => Some(Piece::Data(frame(payload_of(msg_bytes)))),
        ResponseStreamItem::Trailers(trailers) => match trailers.status {
            Ok(_) => Some(Piece::Trailers(trailers.metadata)),
            Err(err) => Some(Piece::Failed(canonical(err.code), err.message@)),
        },
        ResponseStreamItem::StreamClosed => Some(Piece::End),
        ResponseStreamItem::Headers(_) => None,
    }
}

impl<R, F> InvokeResponseBody<R, F> {
    /// Whether `next_step` turns this body into `post` and returns `r`.
    pub open spec fn steps(self, r: BodyStep<R>, post: Self) -> bool {
        match self.state {
            ResponseState::Done => r is End && post.state is Done,
            ResponseState::Idle(None) => r is End && post.state is Done,
            ResponseState::Idle(Some(stream)) => r == BodyStep::Receive(stream) && post.state
                == ResponseState::<R, F>::Idle(None),
            ResponseState::Future(_) => r is Poll && post == self,
        }
    }

    /// Whether `receiving` turns this body into `post`.
    pub open spec fn waits(self, fut: F, post: Self) -> bool {
        self.state == ResponseState::<R, F>::Idle(None) && post.state == ResponseState::<
            R,
            F,
        >::Future(fut)
    }

    /// Whether `received` turns this body into `post` and returns `r`.
    pub open spec fn receives(
        self,
        recv_stream: R,
        item: ResponseStreamItem,
        msg_bytes: Option<Bytes>,
        r: BodyPoll,
        post: Self,
    ) -> bool {
        &&& self.state is Future
        &&& r@ == piece_of(item, msg_bytes)
        &&& post.state == if ends_body(item) {
            ResponseState::<R, F>::Done
        } else {
            ResponseState::<R, F>::Idle(Some(recv_stream))
        }
    }

    /// Whether this body becomes `post` by receiving an item from its stream, and gives `r` for it:
    /// the stream is handed over, the item is waited for, and taken in.
    pub open spec fn takes_in(
        self,
        item: ResponseStreamItem,
        msg_bytes: Option<Bytes>,
        r: BodyPoll,
        post: Self,
    ) -> bool {
        exists|handed: R, idle: Self, fut: F, waiting: Self, back: R|
            {
                &&& #[trigger] self.steps(BodyStep::Receive(handed), idle)
                &&& #[trigger] idle.waits(fut, waiting)
                &&& #[trigger] waiting.receives(back, item, msg_bytes, r, post)
            }
    }

    /// Whether `post` and `r` are what becomes of this body when the request is refused with
    /// `status`: it ends with that status, unless it has ended before.
    pub open spec fn is_refused(
        self,
        status: Status,
        post: Self,
        r: Option<Result<BodyFrame, Status>>,
    ) -> bool {
        &&& post.state is Done
        &&& r == if self.state is Done {
            None::<Result<BodyFrame, Status>>
        } else {
            Some(Err(status))
        }
    }

    /// A body that is about to deliver what `recv_stream` receives.
    pub fn new(recv_stream: R) -> (r: Self)
        ensures
            r.state == ResponseState::<R, F>::Idle(Some(recv_stream)),
    {
        InvokeResponseBody { state: ResponseState::Idle(Some(recv_stream)) }
    }

    /// What to do next. The stream to receive from is handed over.
    pub fn next_step(&mut self) -> (r: BodyStep<R>)
        ensures
            old(self).steps(r, *final(self)),
    {
        match &mut self.state {
            ResponseState::Done => BodyStep::End,
            ResponseState::Future(_) => BodyStep::Poll,
            ResponseState::Idle(recv_stream_opt) => match recv_stream_opt.take() {
                Some(recv_stream) => BodyStep::Receive(recv_stream),
                None => {
                    self.state = ResponseState::Done;
                    BodyStep::End
                },
            },
        }
    }

    /// Begins to wait for the next item of the stream that was handed over.
    pub fn receiving(&mut self, fut: F)
        requires
            old(self).state matches ResponseState::Idle(None),
        ensures
            old(self).waits(fut, *final(self)),
    {
        self.state = ResponseState::Future(fut);
    }

    /// Takes in the item that was waited for, with the bytes of a message, and takes the stream
    /// back.
    pub fn received(
        &mut self,
        recv_stream: R,
        item: ResponseStreamItem,
        msg_bytes: Option<Bytes>,
    ) -> (r: BodyPoll)
        requires
            old(self).state is Future,
            item is Message ==> HEADER_LEN + payload_of(msg_bytes).len() <= isize::MAX,
        ensures
            old(self).receives(recv_stream, item, msg_bytes, r, *final(self)),
    {
        match item {
            ResponseStreamItem::Message => {
                let payload = match msg_bytes {
                    Some(payload) => payload,
                    None => bytes_empty(),
                };
                let framed = frame_message(&payload);
                self.state = ResponseState::Idle(Some(recv_stream));
                BodyPoll::Ready(Some(Ok(BodyFrame::Data(framed))))
            },
            ResponseStreamItem::Trailers(trailers) => {
                self.state = ResponseState::Done;
                match trailers.status {
                    Err(err) => BodyPoll::Ready(Some(Err(err.into_status()))),
                    Ok(_) => BodyPoll::Ready(Some(Ok(BodyFrame::Trailers(trailers.metadata)))),
                }
            },
            ResponseStreamItem::StreamClosed => {
                self.state = ResponseState::Done;
                BodyPoll::Ready(None)
            },
            ResponseStreamItem::Headers(_) => {
                self.state = ResponseState::Idle(Some(recv_stream));
                BodyPoll::Again
            },
        }
    }

    /// Ends the body with the status that refused the request, unless it has ended before.
    pub fn refuse(&mut self, status: Status) -> (r: Option<Result<BodyFrame, Status>>)
        ensures
            old(self).is_refused(status, *final(self), r),
    {
        match &self.state {
            ResponseState::Done => None,
            _ => {
                self.state = ResponseState::Done;
                Some(Err(status))
            },
        }
    }

    /// How a body is shown to people.
    pub fn fmt(&self) -> (r: String)
        ensures
            r@ == "InvokeResponseBody"@,
    {
        "InvokeResponseBody".to_owned()
    }
}

/// The payloads of the messages among `items`.
pub open spec fn payloads_of(items: Seq<(ResponseStreamItem, Option<Bytes>)>) -> Seq<Seq<u8>>
    decreases items.len(),
{
    if items.len() == 0 {
        Seq::empty()
    } else {
        let before = payloads_of(items.drop_last());
        if items.last().0 is Message {
            before.push(payload_of(items.last().1))
        } else {
            before
        }
    }
}

/// The pieces that a body gives in the course of `polls`.
pub open spec fn pieces_of(polls: Seq<BodyPoll>) -> Seq<Piece>
    decreases polls.len(),
{
    if polls.len() == 0 {
        Seq::empty()
    } else {
        let before = pieces_of(polls.drop_last());
        match polls.last()@ {
            Some(piece) => before.push(piece),
            None => before,
        }
    }
}

/// The data among `pieces`.
pub open spec fn data_of(pieces: Seq<Piece>) -> Seq<u8>
    decreases pieces.len(),
{
    if pieces.len() == 0 {
        Seq::empty()
    } else {
        let before = data_of(pieces.drop_last());
        match pieces.last() {
            Piece::Data(bytes) => before + bytes,
            _ => before,
        }
    }
}

/// The frames of messages, each as a piece of a body.
pub open spec fn framed_pieces(payloads: Seq<Seq<u8>>) -> Seq<Piece>
    decreases payloads.len(),
{
    if payloads.len() == 0 {
        Seq::empty()
    } else {
        framed_pieces(payloads.drop_last()).push(Piece::Data(frame(payloads.last())))
    }
}

/// Whether a body goes through `bodies` when its stream delivers `items`, and gives `polls` for them.
pub open spec fn is_run<R, F>(
    bodies: Seq<InvokeResponseBody<R, F>>,
    items: Seq<(ResponseStreamItem, Option<Bytes>)>,
    polls: Seq<BodyPoll>,
) -> bool {
    &&& bodies.len() == items.len() + 1
    &&& polls.len() == items.len()
    &&& forall|i: int|
        #![trigger items[i]]
        0 <= i < items.len() ==> bodies[i].takes_in(items[i].0, items[i].1, polls[i], bodies[i + 1])
}

/// A run without its last item.
proof fn run_without_last<R, F>(
    bodies: Seq<InvokeResponseBody<R, F>>,
    items: Seq<(ResponseStreamItem, Option<Bytes>)>,
    polls: Seq<BodyPoll>,
)
    requires
        is_run(bodies, items, polls),
        items.len() > 0,
    ensures
        is_run(bodies.drop_last(), items.drop_last(), polls.drop_last()),
        bodies[items.len() - 1].takes_in(
            items.last().0,
            items.last().1,
            polls.last(),
            bodies.last(),
        ),
        polls.last()@ == piece_of(items.last().0, items.last().1),
        ends_body(items.last().0) <==> bodies.last().state is Done,
{
    let (before, some) = (bodies.drop_last(), items.drop_last());
    assert forall|i: int| #![trigger some[i]] 0 <= i < some.len() implies before[i].takes_in(
        some[i].0,
        some[i].1,
        polls.drop_last()[i],
        before[i + 1],
    ) by {
        assert(some[i] == items[i]);
    }
    let last = items.len() - 1;
    assert(bodies[last].takes_in(items[last].0, items[last].1, polls[last], bodies[last + 1]));
}

/// Up to its last item, a run gives the frames of the messages and nothing else; what it gives for
/// the last item is the piece of that item.
proof fn run_gives_frames_before_its_end<R, F>(
    bodies: Seq<InvokeResponseBody<R, F>>,
    items: Seq<(ResponseStreamItem, Option<Bytes>)>,
    polls: Seq<BodyPoll>,
)
    requires
        is_run(bodies, items, polls),
        items.len() > 0,
    ensures
        pieces_of(polls.drop_last()) == framed_pieces(payloads_of(items.drop_last())),
        polls.last()@ == piece_of(items.last().0, items.last().1),
        ends_body(items.last().0) <==> bodies.last().state is Done,
    decreases items.len(), 0int,
{
    let some = items.drop_last();
    run_without_last(bodies, items, polls);
    only_the_last_item_ends(bodies, items, polls);
    assert forall|i: int| #![trigger some[i]] 0 <= i < some.len() implies !ends_body(some[i].0) by {
        assert(some[i] == items[i]);
    }
    run_gives_frames(bodies.drop_last(), some, polls.drop_last());
}

/// As long as no item ends the body, a run gives the frames of the messages and nothing else.
proof fn run_gives_frames<R, F>(
    bodies: Seq<InvokeResponseBody<R, F>>,
    items: Seq<(ResponseStreamItem, Option<Bytes>)>,
    polls: Seq<BodyPoll>,
)
    requires
        is_run(bodies, items, polls),
        forall|i: int| #![trigger items[i]] 0 <= i < items.len() ==> !ends_body(items[i].0),
    ensures
        pieces_of(polls) == framed_pieces(payloads_of(items)),
    decreases items.len(), 1int,
{
    if items.len() > 0 {
        run_gives_frames_before_its_end(bodies, items, polls);
        let last = items[items.len() - 1];
        assert(!ends_body(last.0));
        if last.0 is Message {
            assert(payloads_of(items).drop_last() =~= payloads_of(items.drop_last()));
        }
    }
}

/// A body that is done takes nothing in, so that only the last item of a run can end it.
proof fn only_the_last_item_ends<R, F>(
    bodies: Seq<InvokeResponseBody<R, F>>,
    items: Seq<(ResponseStreamItem, Option<Bytes>)>,
    polls: Seq<BodyPoll>,
)
    requires
        is_run(bodies, items, polls),
    ensures
        forall|i: int| #![trigger items[i]] 0 <= i < items.len() - 1 ==> !ends_body(items[i].0),
{
    assert forall|i: int| #![trigger items[i]] 0 <= i < items.len() - 1 implies !ends_body(
        items[i].0,
    ) by {
        assert(bodies[i].takes_in(items[i].0, items[i].1, polls[i], bodies[i + 1]));
        let next = items[i + 1];
        assert(bodies[i + 1].takes_in(next.0, next.1, polls[i + 1], bodies[i + 2]));
    }
}

/// A response gives its messages as data frames, one for each and in order, then its trailers or the
/// error in them, and then the end: whatever headers stand in between give nothing and end nothing.
pub proof fn response_gives_frames_then_trailers<R, F>(
    bodies: Seq<InvokeResponseBody<R, F>>,
    items: Seq<(ResponseStreamItem, Option<Bytes>)>,
    polls: Seq<BodyPoll>,
    step: BodyStep<R>,
    post: InvokeResponseBody<R, F>,
)
    requires
        is_run(bodies, items, polls),
        items.len() > 0,
        items.last().0 is Trailers,
        bodies.last().steps(step, post),
    ensures
        pieces_of(polls) == framed_pieces(payloads_of(items)).push(
            piece_of(items.last().0, items.last().1)->0,
        ),
        items.last().0->Trailers_0.status is Ok ==> pieces_of(polls).last() == Piece::Trailers(
            items.last().0->Trailers_0.metadata,
        ),
        bodies.last().state is Done,
        step is End,
        post.state is Done,
{
    run_gives_frames_before_its_end(bodies, items, polls);
}

/// Frames as pieces carry the frames as bytes.
proof fn framed_pieces_carry_frames(payloads: Seq<Seq<u8>>)
    requires
        forall|i: int| 0 <= i < payloads.len() ==> fits_frame(#[trigger] payloads[i]),
    ensures
        messages(data_of(framed_pieces(payloads))) == payloads,
        leftover(data_of(framed_pieces(payloads))) == Seq::<u8>::empty(),
    decreases payloads.len(),
{
    if payloads.len() > 0 {
        let before = payloads.drop_last();
        let pieces = framed_pieces(payloads);
        assert(pieces.drop_last() =~= framed_pieces(before));
        framed_pieces_carry_frames(before);
        let data = data_of(framed_pieces(before));
        let last = frame(payloads.last());
        let none = Seq::<u8>::empty();
        chunks_do_not_matter(data, last);
        assert(none + last =~= last + none);
        assert(fits_frame(payloads[payloads.len() - 1]));
        deframing_undoes_framing(payloads.last(), none);
        assert(messages(none) =~= Seq::empty() && leftover(none) == none);
        assert(messages(last + none) =~= seq![payloads.last()]);
        assert(payloads =~= before + seq![payloads.last()]);
    }
}

/// Whoever reads the frames of a response's body reads the messages that the response stream
/// delivered, all of them and in order, and no byte is left over.
pub proof fn body_carries_all_messages<R, F>(
    bodies: Seq<InvokeResponseBody<R, F>>,
    items: Seq<(ResponseStreamItem, Option<Bytes>)>,
    polls: Seq<BodyPoll>,
)
    requires
        is_run(bodies, items, polls),
        forall|i: int|
            #![trigger items[i]]
            0 <= i < items.len() ==> fits_frame(payload_of(items[i].1)),
    ensures
        messages(data_of(pieces_of(polls))) == payloads_of(items),
        leftover(data_of(pieces_of(polls))) == Seq::<u8>::empty(),
{
    payloads_fit(items);
    framed_pieces_carry_frames(payloads_of(items));
    only_the_last_item_ends(bodies, items, polls);
    if items.len() > 0 && ends_body(items.last().0) {
        run_gives_frames_before_its_end(bodies, items, polls);
        assert(pieces_of(polls).drop_last() =~= pieces_of(polls.drop_last()));
    } else {
        assert forall|i: int| #![trigger items[i]] 0 <= i < items.len() implies !ends_body(
            items[i].0,
        ) by {
            if i == items.len() - 1 {
                assert(items[i] == items.last());
            }
        }
        run_gives_frames(bodies, items, polls);
    }
}

/// The payloads of messages that fit a frame fit a frame.
proof fn payloads_fit(items: Seq<(ResponseStreamItem, Option<Bytes>)>)
    requires
        forall|i: int|
            #![trigger items[i]]
            0 <= i < items.len() ==> fits_frame(payload_of(items[i].1)),
    ensures
        forall|i: int|
            0 <= i < payloads_of(items).len() ==> fits_frame(#[trigger] payloads_of(items)[i]),
    decreases items.len(),
{
    if items.len() > 0 {
        let some = items.drop_last();
        assert forall|i: int| #![trigger some[i]] 0 <= i < some.len() implies fits_frame(
            payload_of(some[i].1),
        ) by {
            assert(some[i] == items[i]);
        }
        payloads_fit(some);
        let last = items[items.len() - 1];
        assert(fits_frame(payload_of(last.1)));
        assert forall|i: int| 0 <= i < payloads_of(items).len() implies fits_frame(
            #[trigger] payloads_of(items)[i],
        ) by {
            if i < payloads_of(some).len() {
                assert(payloads_of(items)[i] == payloads_of(some)[i]);
            }
        }
    }
}

/// While an item is being waited for, the body asks for nothing but to go on with that wait, however
/// often it is asked: no item is received twice, lost, or asked for before the last one was taken in.
/// When the item is there, and is a message, the body gives its frame and has the stream back.
pub proof fn an_item_is_waited_for_once<R, F>(
    fut: F,
    bodies: Seq<InvokeResponseBody<R, F>>,
    steps: Seq<BodyStep<R>>,
    recv_stream: R,
    item: ResponseStreamItem,
    msg_bytes: Option<Bytes>,
    r: BodyPoll,
    post: InvokeResponseBody<R, F>,
)
    requires
        bodies.len() == steps.len() + 1,
        bodies[0].state == ResponseState::<R, F>::Future(fut),
        forall|i: int|
            #![trigger steps[i]]
            0 <= i < steps.len() ==> bodies[i].steps(steps[i], bodies[i + 1]),
        bodies.last().receives(recv_stream, item, msg_bytes, r, post),
    ensures
        forall|i: int| #![trigger steps[i]] 0 <= i < steps.len() ==> steps[i] is Poll,
        bodies.last() == bodies[0],
        item is Message ==> r@ == Some(Piece::Data(frame(payload_of(msg_bytes)))) && post.state
            == ResponseState::<R, F>::Idle(Some(recv_stream)),
{
    waiting_goes_on(fut, bodies, steps);
}

/// While an item is being waited for, the body stays as it is.
proof fn waiting_goes_on<R, F>(
    fut: F,
    bodies: Seq<InvokeResponseBody<R, F>>,
    steps: Seq<BodyStep<R>>,
)
    requires
        bodies.len() == steps.len() + 1,
        bodies[0].state == ResponseState::<R, F>::Future(fut),
        forall|i: int|
            #![trigger steps[i]]
            0 <= i < steps.len() ==> bodies[i].steps(steps[i], bodies[i + 1]),
    ensures
        forall|i: int| #![trigger steps[i]] 0 <= i < steps.len() ==> steps[i] is Poll,
        bodies.last() == bodies[0],
    decreases steps.len(),
{
    if steps.len() > 0 {
        let (before, some) = (bodies.drop_last(), steps.drop_last());
        assert forall|i: int| #![trigger some[i]] 0 <= i < some.len() implies before[i].steps(
            some[i],
            before[i + 1],
        ) by {
            assert(some[i] == steps[i]);
        }
        waiting_goes_on(fut, before, some);
        let last = steps.len() - 1;
        assert(bodies[last].steps(steps[last], bodies[last + 1]));
        assert forall|i: int| #![trigger steps[i]] 0 <= i < steps.len() implies steps[i] is Poll by {
            if i < last {
                assert(some[i] == steps[i]);
            }
        }
    }
}

/// What each item of a response stream gives the body. A message gives a frame: five bytes, of which
/// the first is zero and the others are the length of the message, and the bytes of the message.
/// Trailers give their metadata, or where the call failed the code and the message of that failure.
/// The close of the stream gives the end, and headers give nothing. Trailers and the close end the
/// body; after anything else it goes on with the stream.
pub proof fn each_item_gives_what_it_says<R, F>(
    body: InvokeResponseBody<R, F>,
    recv_stream: R,
    item: ResponseStreamItem,
    msg_bytes: Option<Bytes>,
    r: BodyPoll,
    post: InvokeResponseBody<R, F>,
)
    requires
        body.receives(recv_stream, item, msg_bytes, r, post),
    ensures
        item is Message ==> {
            &&& r matches BodyPoll::Ready(Some(Ok(BodyFrame::Data(data))))
            &&& bytes_of(data).len() >= 5
            &&& bytes_of(data)[0] == 0
            &&& bytes_of(data)[1] * 0x100_0000 + bytes_of(data)[2] * 0x1_0000 + bytes_of(data)[3]
                * 0x100 + bytes_of(data)[4] == (bytes_of(data).len() - 5) % 0x1_0000_0000
            &&& msg_bytes matches Some(b) ==> bytes_of(data).skip(5) == bytes_of(b)
            &&& msg_bytes is None ==> bytes_of(data).len() == 5
        },
        item matches ResponseStreamItem::Trailers(trailers) ==> match trailers.status {
            Ok(_) => r == BodyPoll::Ready(
                Some(Ok::<BodyFrame, Status>(BodyFrame::Trailers(trailers.metadata))),
            ),
            Err(error) => {
                &&& r matches BodyPoll::Ready(Some(Err(status)))
                &&& status.message@ == error.message@
                &&& 0 <= error.code <= 16 ==> status.code.number() == error.code
                &&& !(0 <= error.code <= 16) ==> status.code == Code::Unknown
            },
        },
        item is StreamClosed ==> r == BodyPoll::Ready(None),
        item is Headers ==> r == BodyPoll::Again,
        item is Trailers || item is StreamClosed <==> post.state is Done,
        item is Message || item is Headers ==> post.state == ResponseState::<R, F>::Idle(
            Some(recv_stream),
        ),
{
    if item is Message {
        a_frame_is_a_header_and_the_message(payload_of(msg_bytes));
    }
}

/// A call that fails after its response has begun is reported as it failed: the last piece of the body
/// is the code with the number of that failure, where a code has it, and its message. Then the body has
/// ended.
pub proof fn failed_calls_end_with_their_status<R, F>(
    bodies: Seq<InvokeResponseBody<R, F>>,
    items: Seq<(ResponseStreamItem, Option<Bytes>)>,
    polls: Seq<BodyPoll>,
    error: StatusError,
)
    requires
        is_run(bodies, items, polls),
        items.len() > 0,
        items.last().0 matches ResponseStreamItem::Trailers(trailers) && trailers.status == Err::<
            (),
            StatusError,
        >(error),
    ensures
        polls.last() matches BodyPoll::Ready(Some(Err(status))) && {
            &&& status.message@ == error.message@
            &&& 0 <= error.code <= 16 ==> status.code.number() == error.code
            &&& !(0 <= error.code <= 16) ==> status.code == Code::Unknown
        },
        0 <= error.code <= 16 ==> pieces_of(polls).last() == Piece::Failed(
            error.code,
            error.message@,
        ),
        bodies.last().state is Done,
{
    run_without_last(bodies, items, polls);
}

/// What a body asks for, and what it becomes: one that has ended, or lost its stream, asks for nothing
/// and stays ended; one that has its stream hands it over; one that waits goes on waiting.
pub proof fn a_body_asks_for_what_it_needs<R, F>(
    body: InvokeResponseBody<R, F>,
    r: BodyStep<R>,
    post: InvokeResponseBody<R, F>,
)
    requires
        body.steps(r, post),
    ensures
        r is End <==> body.state is Done || body.state == ResponseState::<R, F>::Idle(None),
        r is End ==> post.state is Done,
        r matches BodyStep::Receive(stream) ==> body.state == ResponseState::<R, F>::Idle(
            Some(stream),
        ) && post.state == ResponseState::<R, F>::Idle(None),
        r is Poll <==> body.state is Future,
        r is Poll ==> post == body,
{
}

/// A refusal is told once: the body that goes on gives the status and ends, the one that has ended
/// gives nothing.
pub proof fn a_refusal_is_told_once<R, F>(
    body: InvokeResponseBody<R, F>,
    status: Status,
    r: Option<Result<BodyFrame, Status>>,
    post: InvokeResponseBody<R, F>,
    again: Option<Result<BodyFrame, Status>>,
    last: InvokeResponseBody<R, F>,
)
    requires
        body.is_refused(status, post, r),
        post.is_refused(status, last, again),
    ensures
        !(body.state is Done) ==> r == Some(Err::<BodyFrame, Status>(status)),
        body.state is Done ==> r is None,
        post.state is Done,
        again is None,
        last.state is Done,
{
}

/// A wait starts only where the stream was handed over, and is for what was asked.
pub proof fn a_wait_is_for_what_was_asked<R, F>(
    body: InvokeResponseBody<R, F>,
    fut: F,
    post: InvokeResponseBody<R, F>,
)
    requires
        body.waits(fut, post),
    ensures
        body.state == ResponseState::<R, F>::Idle(None),
        post.state == ResponseState::<R, F>::Future(fut),
{
}

} // verus!
