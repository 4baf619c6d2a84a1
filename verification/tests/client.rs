use bytes::{Bytes, BytesMut};
use tonic_grpc::client::{answer, FirstEvent, InvokeService, Response};
use tonic_grpc::metadata::{
    MetadataMap, RequestHeaders, ResponseHeaders, ResponseStreamItem, StatusError, Trailers,
};
use tonic_grpc::request_pump::{PumpAction, PumpEvent, RequestPump};
use tonic_grpc::response_body::{BodyFrame, BodyPoll, BodyStep, ResponseState};
use tonic_grpc::status::{Code, Status};

fn metadata(name: &str, value: &[u8]) -> MetadataMap {
    MetadataMap { entries: vec![(name.to_string(), value.to_vec())] }
}

fn answered(item: ResponseStreamItem) -> Result<Response<u8, ()>, Status> {
    answer(FirstEvent::Item(item), 7u8)
}

struct TestInvoker;

#[test]
fn test_invoke_service_call() {
    let invoker = TestInvoker;
    let service = InvokeService::new(invoker);

    let mut req_body = BytesMut::new();
    req_body.extend_from_slice(&[0x00]);
    req_body.extend_from_slice(&5u32.to_be_bytes());
    req_body.extend_from_slice(b"hello");

    let headers = service
        .request_headers("/test.Service/TestMethod".to_string(), Ok::<_, ()>(MetadataMap::default()));
    assert_eq!(headers.method_name, "/test.Service/TestMethod");

    let mut pump = RequestPump::new();
    match pump.step(PumpEvent::Data(req_body.freeze())) {
        PumpAction::Send(message) => assert_eq!(&message.encode().unwrap()[..], b"hello"),
        other => panic!("{:?}", other),
    }
    assert!(matches!(pump.step(PumpEvent::Sent), PumpAction::Read));
    assert!(matches!(pump.step(PumpEvent::BodyEnd), PumpAction::Finish));

    let item = ResponseStreamItem::Headers(ResponseHeaders { metadata: MetadataMap::default() });
    let response: Response<&str, u8> = answer(FirstEvent::Item(item), "stream").unwrap();
    assert_eq!(response.status, 200);

    let mut resp_body = response.body;
    let stream = match resp_body.next_step() {
        BodyStep::Receive(stream) => stream,
        _ => panic!("nothing to receive from"),
    };
    resp_body.receiving(0);
    let data = Bytes::from_static(b"response payload");
    let frame1 = match resp_body.received(stream, ResponseStreamItem::Message, Some(data)) {
        BodyPoll::Ready(Some(Ok(BodyFrame::Data(b)))) => b,
        _ => panic!("no data"),
    };
    assert_eq!(&frame1[..5], &[0x00, 0, 0, 0, 16]);
    assert_eq!(&frame1[5..], b"response payload");
}

#[test]
fn service_is_shared_between_clones() {
    fn assert_bounds<T: Clone + Send + Sync>(_: &T) {}

    let mut service = InvokeService::new(41u32);
    assert_bounds(&service);
    let clone = service.clone();
    assert_eq!(*clone.invoker, 41);
    assert!(std::sync::Arc::ptr_eq(&clone.invoker, &service.invoker));
    assert!(service.poll_ready().is_ok());
    assert_eq!(service.fmt(), "InvokeService");
}

#[test]
fn request_headers_keep_metadata() {
    let service = InvokeService::new(());
    let headers = service.request_headers("/a/b".to_string(), Ok::<_, ()>(metadata("k", b"v")));
    assert_eq!(headers.method_name, "/a/b");
    assert_eq!(headers.metadata.entries, vec![("k".to_string(), b"v".to_vec())]);
}

#[test]
fn request_headers_without_usable_metadata() {
    let service = InvokeService::new(());
    let headers = service.request_headers("/a/b".to_string(), Err("bad"));
    assert_eq!(headers.method_name, "/a/b");
    assert!(headers.metadata.entries.is_empty());
    assert!(RequestHeaders::new().metadata.entries.is_empty());
    assert_eq!(RequestHeaders::new().method_name, "");
}

#[test]
fn headers_start_a_response() {
    let item = ResponseStreamItem::Headers(ResponseHeaders { metadata: metadata("h", b"1") });
    let response = answered(item).unwrap();
    assert_eq!(response.status, 200);
    assert_eq!(response.headers.entries, vec![("h".to_string(), b"1".to_vec())]);
    assert!(matches!(response.body.state, ResponseState::Idle(Some(7))));
}

#[test]
fn trailers_with_an_error_answer_with_it() {
    let status = Err(StatusError { code: 5, message: "no such thing".to_string() });
    let trailers = Trailers { metadata: MetadataMap::default(), status };
    let err = answered(ResponseStreamItem::Trailers(trailers)).err().unwrap();
    assert_eq!(err.code(), Code::NotFound);
    assert_eq!(err.message(), "no such thing");
}

#[test]
fn trailers_without_an_error_are_internal() {
    let trailers = Trailers { metadata: MetadataMap::default(), status: Ok(()) };
    let err = answered(ResponseStreamItem::Trailers(trailers)).err().unwrap();
    assert_eq!(err.code(), Code::Internal);
    assert_eq!(err.message(), "Received trailers-only response without error status");
}

#[test]
fn early_close_is_internal() {
    let err = answered(ResponseStreamItem::StreamClosed).err().unwrap();
    assert_eq!(err.code(), Code::Internal);
    assert_eq!(err.message(), "Stream closed before response headers received");
}

#[test]
fn early_message_is_internal() {
    let err = answered(ResponseStreamItem::Message).err().unwrap();
    assert_eq!(err.code(), Code::Internal);
    assert_eq!(err.message(), "Received response message before headers");
}

#[test]
fn compressed_requests_are_unimplemented() {
    let mut pump = RequestPump::new();
    let status = match pump.step(PumpEvent::Data(Bytes::from_static(&[1, 0, 0, 0, 0]))) {
        PumpAction::Refuse(status) => status,
        other => panic!("{:?}", other),
    };
    let r: Result<Response<(), ()>, Status> = answer(FirstEvent::Refused(status), ());
    let err = r.err().unwrap();
    assert_eq!(err.code(), Code::Unimplemented);
    assert_eq!(
        err.message(),
        "Compressed incoming request data is not supported by tonic-grpc adapter"
    );
}

#[test]
fn code_numbers() {
    let codes = [
        Code::OK,
        Code::Cancelled,
        Code::Unknown,
        Code::InvalidArgument,
        Code::DeadlineExceeded,
        Code::NotFound,
        Code::AlreadyExists,
        Code::PermissionDenied,
        Code::ResourceExhausted,
        Code::FailedPrecondition,
        Code::Aborted,
        Code::OutOfRange,
        Code::Unimplemented,
        Code::Internal,
        Code::Unavailable,
        Code::DataLoss,
        Code::Unauthenticated,
    ];
    for i in 0..codes.len() {
        assert_eq!(Code::from_i32(i as i32), codes[i]);
    }
    assert_eq!(Code::from_i32(17), Code::Unknown);
    assert_eq!(Code::from_i32(-1), Code::Unknown);
    assert_eq!(Code::from_i32(i32::MAX), Code::Unknown);
}

#[test]
fn service_can_be_cloned_and_shared_between_threads() {
    fn check<T: Clone + Send + Sync>(_service: &T) {}
    check(&InvokeService::new(TestInvoker));
}

#[test]
fn compressed_requests_end_their_response() {
    let headers = ResponseStreamItem::Headers(ResponseHeaders { metadata: MetadataMap::default() });
    let mut response = answered(headers).unwrap();
    let mut pump = RequestPump::new();
    let status = match pump.step(PumpEvent::Data(Bytes::from_static(&[1, 0, 0, 0, 0]))) {
        PumpAction::Refuse(status) => status,
        other => panic!("{:?}", other),
    };
    match response.body.refuse(status) {
        Some(Err(status)) => assert_eq!(status.code(), Code::Unimplemented),
        _ => panic!("the response goes on"),
    }
    assert!(matches!(response.body.state, ResponseState::Done));
}
