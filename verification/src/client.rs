//! The client side of the adapter: HTTP requests in, gRPC calls out.
//!
//! A call has three parts. Its headers are made of the request's path and metadata
//! ([`InvokeService::request_headers`]). The request's body is pumped into it, message by message
//! ([`crate::request_pump`]). Its answer is decided by what happens first ([`answer`]), and goes on
//! as a body ([`crate::response_body`]).
use std::sync::Arc;

use vstd::prelude::*;

use crate::framing::{meets_compressed, COMPRESSED_UNSUPPORTED};
use crate::metadata::{MetadataMap, RequestHeaders, ResponseStreamItem};
use crate::request_pump::{
    pump_chunks, pump_sends_the_messages_of_the_body, pump_start, PumpAction,
};
use crate::response_body::{BodyFrame, InvokeResponseBody, ResponseState};
use crate::sharing::share;
use crate::status::{Code, Status};

verus! {

/// The message of the status where a call ended well without ever starting a response.
pub const TRAILERS_ONLY: &'static str = "Received trailers-only response without error status";

/// The message of the status where the response stream closed without starting a response.
pub const CLOSED_EARLY: &'static str = "Stream closed before response headers received";

/// The message of the status where a message came before the response's headers.
pub const MESSAGE_EARLY: &'static str = "Received response message before headers";

/// A service that answers HTTP requests through an invoker of gRPC calls.
pub struct InvokeService<I> {
    pub invoker: Arc<I>,
}

impl<I> InvokeService<I> {
    /// A service over the given invoker.
    pub fn new(invoker: I) -> (r: Self)
        ensures
            *r.invoker == invoker,
    {
        InvokeService { invoker: Arc::new(invoker) }
    }

    /// Whether the service can take a request: it always can.
    pub fn poll_ready(&mut self) -> (r: Result<(), Status>)
        ensures
            r is Ok,
            *final(self) == *old(self),
    {
        Ok(())
    }

    /// The headers of the call for a request to `path`. Metadata that could not be converted is left
    /// out.
    pub fn request_headers<E>(&self, path: String, metadata: Result<MetadataMap, E>) -> (r:
        RequestHeaders)
        ensures
            r.method_name == path,
            match metadata {
                Ok(metadata) => r.metadata == metadata,
                Err(_) => r.metadata.entries@.len() == 0,
            },
    {
        let metadata = match metadata {
            Ok(metadata) => metadata,
            Err(_) => MetadataMap::default(),
        };
        RequestHeaders::new().with_method_name(path).with_metadata(metadata)
    }

    /// How a service is shown to people.
    pub fn fmt(&self) -> (r: String)
        ensures
            r@ == "InvokeService"@,
    {
        "InvokeService".to_owned()
    }
}

impl<I> Clone for InvokeService<I> {
    /// Another service over the same invoker.
    fn clone(&self) -> (r: Self)
        ensures
            r == *self,
    {
        InvokeService { invoker: share(&self.invoker) }
    }
}

/// What happens first in a call: the response stream delivers an item, or the request is refused.
#[derive(Debug)]
pub enum FirstEvent {
    Item(ResponseStreamItem),
    Refused(Status),
}

/// An HTTP response: its status, its headers and its body.
pub struct Response<R, F> {
    pub status: u16,
    pub headers: MetadataMap,
    pub body: InvokeResponseBody<R, F>,
}

/// Whether `r` is the answer to a request whose call starts with `first`.
pub open spec fn is_answer<R, F>(
    first: FirstEvent,
    recv_stream: R,
    r: Result<Response<R, F>, Status>,
) -> bool {
    match first {
        FirstEvent::Refused(status) => r == Err::<Response<R, F>, Status>(status),
        FirstEvent::Item(ResponseStreamItem::Headers(headers)) => r matches Ok(response)
            && response.status == 200 && response.headers == headers.metadata
            && response.body.state == ResponseState::<R, F>::Idle(Some(recv_stream)),
        FirstEvent::Item(ResponseStreamItem::Trailers(trailers)) => r matches Err(status)
            && match trailers.status {
            Err(err) => err.reported_by(status),
            Ok(_) => status.is_status(Code::Internal, TRAILERS_ONLY@),
        },
        FirstEvent::Item(ResponseStreamItem::StreamClosed) => r matches Err(status)
            && status.is_status(Code::Internal, CLOSED_EARLY@),
        FirstEvent::Item(ResponseStreamItem::Message) => r matches Err(status)
            && status.is_status(Code::Internal, MESSAGE_EARLY@),
    }
}

/// The answer to a request whose call starts with `first`. Only headers start a response, whose body
/// then goes on with `recv_stream`.
pub fn answer<R, F>(first: FirstEvent, recv_stream: R) -> (r: Result<Response<R, F>, Status>)
    ensures
        is_answer(first, recv_stream, r),
{
    match first {
        FirstEvent::Refused(status) => Err(status),
        FirstEvent::Item(ResponseStreamItem::Headers(headers)) => Ok(
            Response {
                status: 200,
                headers: headers.metadata,
                body: InvokeResponseBody::new(recv_stream),
            },
        ),
        FirstEvent::Item(ResponseStreamItem::Trailers(trailers)) => match trailers.status {
            Err(err) => Err(err.into_status()),
            Ok(_) => Err(Status::internal(TRAILERS_ONLY)),
        },
        FirstEvent::Item(ResponseStreamItem::StreamClosed) => Err(Status::internal(CLOSED_EARLY)),
        FirstEvent::Item(ResponseStreamItem::Message) => Err(Status::internal(MESSAGE_EARLY)),
    }
}

/// Compressed data in a request is answered with `UNIMPLEMENTED`: however the body is cut into
/// chunks, the action that ends its pump refuses the request, and the answer to a request that is
/// refused is the status of that action.
pub proof fn compressed_requests_are_unimplemented<R, F>(
    chunks: Seq<Seq<u8>>,
    action: PumpAction,
    recv_stream: R,
    r: Result<Response<R, F>, Status>,
)
    requires
        meets_compressed(chunks.flatten()),
        action.is_output(pump_chunks(pump_start(), chunks).1.1),
        action matches PumpAction::Refuse(status) ==> is_answer(
            FirstEvent::Refused(status),
            recv_stream,
            r,
        ),
    ensures
        r matches Err(status) && status.is_status(Code::Unimplemented, COMPRESSED_UNSUPPORTED@),
{
    pump_sends_the_messages_of_the_body(chunks);
}

/// Compressed data in a request whose response has already begun ends that response with
/// `UNIMPLEMENTED`: the body that has not ended yet ends with the status of the action that refuses
/// the request.
pub proof fn compressed_requests_end_their_response<R, F>(
    chunks: Seq<Seq<u8>>,
    action: PumpAction,
    body: InvokeResponseBody<R, F>,
    post: InvokeResponseBody<R, F>,
    r: Option<Result<BodyFrame, Status>>,
)
    requires
        meets_compressed(chunks.flatten()),
        action.is_output(pump_chunks(pump_start(), chunks).1.1),
        !(body.state is Done),
        action matches PumpAction::Refuse(status) ==> body.is_refused(status, post, r),
    ensures
        r matches Some(Err(status)) && status.is_status(
            Code::Unimplemented,
            COMPRESSED_UNSUPPORTED@,
        ),
        post.state is Done,
{
    pump_sends_the_messages_of_the_body(chunks);
}

/// A request is answered by what happens first, and only headers start a response: one with the status
/// 200 and those headers, whose body goes on with the response stream. Anything else is an error. A
/// refusal is answered with its own status, a call that failed with its code and message, and what
/// should not come first with `INTERNAL`.
pub proof fn requests_are_answered_by_what_happens_first<R, F>(
    first: FirstEvent,
    recv_stream: R,
    r: Result<Response<R, F>, Status>,
)
    requires
        is_answer(first, recv_stream, r),
    ensures
        r is Ok <==> (first matches FirstEvent::Item(item) && item is Headers),
        r matches Ok(response) ==> {
            &&& response.status == 200
            &&& response.headers == first->Item_0->Headers_0.metadata
            &&& response.body.state == ResponseState::<R, F>::Idle(Some(recv_stream))
        },
        first matches FirstEvent::Refused(status) ==> r == Err::<Response<R, F>, Status>(status),
        first matches FirstEvent::Item(ResponseStreamItem::Trailers(trailers)) ==> {
            &&& r matches Err(status)
            &&& trailers.status matches Err(error) ==> {
                &&& status.message@ == error.message@
                &&& 0 <= error.code <= 16 ==> status.code.number() == error.code
                &&& !(0 <= error.code <= 16) ==> status.code == Code::Unknown
            }
            &&& trailers.status is Ok ==> status.code == Code::Internal && status.message@
                == "Received trailers-only response without error status"@
        },
        first matches FirstEvent::Item(ResponseStreamItem::StreamClosed) ==> {
            &&& r matches Err(status)
            &&& status.code == Code::Internal
            &&& status.message@ == "Stream closed before response headers received"@
        },
        first matches FirstEvent::Item(ResponseStreamItem::Message) ==> {
            &&& r matches Err(status)
            &&& status.code == Code::Internal
            &&& status.message@ == "Received response message before headers"@
        },
{
}

} // verus!
