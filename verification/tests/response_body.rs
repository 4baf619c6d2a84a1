use bytes::Bytes;
use tonic_grpc::framing::FrameDeframer;
use tonic_grpc::metadata::{
    MetadataMap, ResponseHeaders, ResponseStreamItem, StatusError, Trailers,
};
use tonic_grpc::response_body::{BodyFrame, BodyPoll, BodyStep, InvokeResponseBody, ResponseState};
use tonic_grpc::status::{Code, Status};

type Body = InvokeResponseBody<u8, u16>;

fn deliver(body: &mut Body, item: ResponseStreamItem, bytes: Option<&'static [u8]>) -> BodyPoll {
    let stream = match body.next_step() {
        BodyStep::Receive(stream) => stream,
        _ => panic!("nothing to receive from"),
    };
    assert!(matches!(body.state, ResponseState::Idle(None)));
    body.receiving(9);
    assert!(matches!(body.next_step(), BodyStep::Poll));
    body.received(stream, item, bytes.map(Bytes::from_static))
}

fn trailers(status: Result<(), StatusError>) -> ResponseStreamItem {
    let metadata = MetadataMap { entries: vec![("t".to_string(), b"x".to_vec())] };
    ResponseStreamItem::Trailers(Trailers { metadata, status })
}

fn assert_done(body: &mut Body) {
    assert!(matches!(body.state, ResponseState::Done));
    assert!(matches!(body.next_step(), BodyStep::End));
    assert!(matches!(body.next_step(), BodyStep::End));
}

#[test]
fn body_carries_all_messages() {
    let mut body = Body::new(1);
    let mut deframer = FrameDeframer::new();
    let headers = ResponseStreamItem::Headers(ResponseHeaders { metadata: MetadataMap::default() });
    assert!(matches!(deliver(&mut body, headers, None), BodyPoll::Again));
    let payloads: [&'static [u8]; 3] = [b"a", b"", b"bcd"];
    for payload in payloads {
        match deliver(&mut body, ResponseStreamItem::Message, Some(payload)) {
            BodyPoll::Ready(Some(Ok(BodyFrame::Data(b)))) => deframer.push(b),
            _ => panic!("no data"),
        }
        assert!(matches!(body.state, ResponseState::Idle(Some(1))));
    }
    for payload in payloads {
        assert_eq!(&deframer.pop_frame().unwrap().unwrap()[..], payload);
    }
    assert!(deframer.pop_frame().unwrap().is_none());
}

#[test]
fn message_without_bytes_is_empty() {
    let mut body = Body::new(1);
    match deliver(&mut body, ResponseStreamItem::Message, None) {
        BodyPoll::Ready(Some(Ok(BodyFrame::Data(b)))) => assert_eq!(&b[..], &[0, 0, 0, 0, 0]),
        _ => panic!("no data"),
    }
}

#[test]
fn trailers_end_the_body() {
    let mut body = Body::new(1);
    match deliver(&mut body, trailers(Ok(())), None) {
        BodyPoll::Ready(Some(Ok(BodyFrame::Trailers(m)))) => {
            assert_eq!(m.entries, vec![("t".to_string(), b"x".to_vec())])
        }
        _ => panic!("no trailers"),
    }
    assert_done(&mut body);
}

#[test]
fn failed_call_ends_the_body_with_its_status() {
    let mut body = Body::new(1);
    let err = StatusError { code: 99, message: "odd".to_string() };
    match deliver(&mut body, trailers(Err(err)), None) {
        BodyPoll::Ready(Some(Err(status))) => {
            assert_eq!(status.code(), Code::Unknown);
            assert_eq!(status.message(), "odd");
        }
        _ => panic!("no error"),
    }
    assert_done(&mut body);
}

#[test]
fn closed_stream_ends_the_body() {
    let mut body = Body::new(1);
    assert!(matches!(
        deliver(&mut body, ResponseStreamItem::StreamClosed, None),
        BodyPoll::Ready(None)
    ));
    assert_done(&mut body);
}

#[test]
fn missing_stream_ends_the_body() {
    let mut body: Body = InvokeResponseBody { state: ResponseState::Idle(None) };
    assert!(matches!(body.next_step(), BodyStep::End));
    assert_done(&mut body);
}

#[test]
fn refusal_ends_the_body_once() {
    let mut body = Body::new(1);
    match body.refuse(Status::unimplemented("no")) {
        Some(Err(status)) => assert_eq!(status.code(), Code::Unimplemented),
        _ => panic!("no error"),
    }
    assert_done(&mut body);
    assert!(body.refuse(Status::unimplemented("no")).is_none());
    assert_eq!(body.fmt(), "InvokeResponseBody");
}

#[test]
fn response_gives_frames_then_trailers() {
    let headers =
        || ResponseStreamItem::Headers(ResponseHeaders { metadata: MetadataMap::default() });
    let mut body = Body::new(1);
    let mut frames = vec![];
    for (item, bytes) in [
        (headers(), None),
        (ResponseStreamItem::Message, Some(&b"a"[..])),
        (headers(), None),
        (ResponseStreamItem::Message, Some(&b"bc"[..])),
    ] {
        match deliver(&mut body, item, bytes) {
            BodyPoll::Ready(Some(Ok(BodyFrame::Data(b)))) => frames.push(b.to_vec()),
            BodyPoll::Again => {}
            _ => panic!("neither data nor nothing"),
        }
    }
    assert_eq!(frames, vec![vec![0, 0, 0, 0, 1, b'a'], vec![0, 0, 0, 0, 2, b'b', b'c']]);
    match deliver(&mut body, trailers(Ok(())), None) {
        BodyPoll::Ready(Some(Ok(BodyFrame::Trailers(metadata)))) => {
            assert_eq!(metadata.entries, vec![("t".to_string(), b"x".to_vec())]);
        }
        _ => panic!("no trailers"),
    }
    assert_done(&mut body);
}

#[test]
fn an_item_is_waited_for_once() {
    let mut body = Body::new(1);
    assert!(matches!(body.next_step(), BodyStep::Receive(1)));
    body.receiving(9);
    for _ in 0..4 {
        assert!(matches!(body.next_step(), BodyStep::Poll));
        assert!(matches!(body.state, ResponseState::Future(9)));
    }
    match body.received(1, ResponseStreamItem::Message, Some(Bytes::from_static(b"p"))) {
        BodyPoll::Ready(Some(Ok(BodyFrame::Data(b)))) => assert_eq!(&b[..], [0, 0, 0, 0, 1, b'p']),
        _ => panic!("no data"),
    }
    assert!(matches!(body.state, ResponseState::Idle(Some(1))));
}
