use bytes::{Bytes, BytesMut};
use tonic_grpc::framing::{fits_in_a_frame, frame_message, FrameDeframer, RawBytesRecvMessage, RawBytesSendMessage};
use tonic_grpc::status::Code;

#[test]
fn test_deframer_valid_uncompressed() {
    let mut deframer = FrameDeframer::new();
    let payload = Bytes::from_static(b"hello world");

    let mut framed = BytesMut::new();
    framed.extend_from_slice(&[0x00]);
    framed.extend_from_slice(&(payload.len() as u32).to_be_bytes());
    framed.extend_from_slice(&payload);

    deframer.push(framed.freeze());
    let popped = deframer.pop_frame().unwrap().unwrap();
    assert_eq!(popped, payload);
}

#[test]
fn test_deframer_compressed_error() {
    let mut deframer = FrameDeframer::new();
    let payload = Bytes::from_static(b"compressed payload");

    let mut framed = BytesMut::new();
    framed.extend_from_slice(&[0x01]);
    framed.extend_from_slice(&(payload.len() as u32).to_be_bytes());
    framed.extend_from_slice(&payload);

    deframer.push(framed.freeze());
    let res = deframer.pop_frame();
    assert!(res.is_err());
    let err = res.unwrap_err();
    assert_eq!(err.code(), Code::Unimplemented);
}

fn framed(flag: u8, payload: &[u8]) -> Vec<u8> {
    let mut out = vec![flag];
    out.extend_from_slice(&(payload.len() as u32).to_be_bytes());
    out.extend_from_slice(payload);
    out
}

#[test]
fn empty_deframer_has_no_frame() {
    let mut deframer = FrameDeframer::default();
    assert!(deframer.pop_frame().unwrap().is_none());
}

#[test]
fn incomplete_header_and_incomplete_payload_wait() {
    let mut deframer = FrameDeframer::new();
    let bytes = framed(0, b"abc");
    for i in 0..bytes.len() {
        assert!(deframer.pop_frame().unwrap().is_none());
        deframer.push(Bytes::copy_from_slice(&bytes[i..i + 1]));
    }
    assert_eq!(&deframer.pop_frame().unwrap().unwrap()[..], b"abc");
    assert!(deframer.pop_frame().unwrap().is_none());
}

#[test]
fn empty_payload_is_a_frame() {
    let mut deframer = FrameDeframer::new();
    deframer.push(Bytes::from_static(&[0, 0, 0, 0, 0]));
    assert_eq!(deframer.pop_frame().unwrap().unwrap().len(), 0);
    assert!(deframer.pop_frame().unwrap().is_none());
}

#[test]
fn length_field_is_big_endian() {
    let mut deframer = FrameDeframer::new();
    let payload = vec![7u8; 0x0102];
    let mut bytes = vec![0, 0, 0, 1, 2];
    bytes.extend_from_slice(&payload);
    deframer.push(Bytes::from(bytes));
    assert_eq!(&deframer.pop_frame().unwrap().unwrap()[..], &payload[..]);
}

#[test]
fn compressed_frame_stays_refused() {
    let mut deframer = FrameDeframer::new();
    deframer.push(Bytes::from_static(&[1, 0, 0, 0]));
    assert!(deframer.pop_frame().unwrap().is_none());
    deframer.push(Bytes::from_static(&[0]));
    for _ in 0..2 {
        let err = deframer.pop_frame().unwrap_err();
        assert_eq!(err.code(), Code::Unimplemented);
        assert_eq!(
            err.message(),
            "Compressed incoming request data is not supported by tonic-grpc adapter"
        );
        deframer.push(Bytes::from_static(b"more"));
    }
}

#[test]
fn deframing_undoes_framing() {
    let mut deframer = FrameDeframer::new();
    let payloads = [Bytes::from_static(b"one"), Bytes::new(), Bytes::from_static(b"three")];
    for payload in &payloads {
        deframer.push(frame_message(payload));
    }
    for payload in &payloads {
        assert_eq!(&deframer.pop_frame().unwrap().unwrap(), payload);
    }
    assert!(deframer.pop_frame().unwrap().is_none());
}

#[test]
fn frame_of_a_message() {
    let out = frame_message(&Bytes::from(vec![9u8; 0x0203]));
    assert_eq!(&out[..5], &[0, 0, 0, 2, 3]);
    assert_eq!(&out[5..], &[9u8; 0x0203][..]);
}

#[test]
fn has_room_for_what_fits() {
    let deframer = FrameDeframer::new();
    assert!(deframer.has_room(&Bytes::from_static(b"abc")));
}

#[test]
fn raw_messages_keep_their_bytes() {
    let sent = RawBytesSendMessage(Bytes::from_static(b"raw"));
    assert_eq!(&sent.encode().unwrap()[..], b"raw");

    let mut received = RawBytesRecvMessage::default();
    assert!(received.bytes.is_none());
    let mut data = Bytes::from_static(b"first");
    assert!(received.decode(&mut data).is_ok());
    assert_eq!(data.len(), 0);
    assert_eq!(&received.bytes.as_ref().unwrap()[..], b"first");
    let mut data = Bytes::from_static(b"second");
    assert!(received.decode(&mut data).is_ok());
    assert_eq!(&received.bytes.as_ref().unwrap()[..], b"second");
}

#[test]
fn pushes_add_up() {
    let (mut one, mut two) = (FrameDeframer::new(), FrameDeframer::new());
    let bytes = framed(0, b"abc");
    one.push(Bytes::copy_from_slice(&bytes[..3]));
    one.push(Bytes::new());
    one.push(Bytes::copy_from_slice(&bytes[3..]));
    two.push(Bytes::copy_from_slice(&bytes));
    assert_eq!(one.pop_frame().unwrap(), two.pop_frame().unwrap());
    assert!(one.pop_frame().unwrap().is_none());
    assert!(two.pop_frame().unwrap().is_none());
}

#[test]
fn framed_messages_are_popped() {
    let payloads: [&[u8]; 4] = [b"one", b"", b"three", b"4"];
    let stream: Vec<u8> = payloads.iter().flat_map(|payload| framed(0, payload)).collect();
    for size in 1..=stream.len() {
        for between in [false, true] {
            let mut deframer = FrameDeframer::new();
            let mut got: Vec<Bytes> = vec![];
            for chunk in stream.chunks(size) {
                deframer.push(Bytes::copy_from_slice(chunk));
                if between {
                    got.extend(deframer.pop_frame().unwrap());
                }
            }
            while let Some(payload) = deframer.pop_frame().unwrap() {
                got.push(payload);
            }
            assert_eq!(got, payloads);
            assert!(deframer.pop_frame().unwrap().is_none());
        }
    }
}

#[test]
fn messages_that_memory_can_hold_fit_in_a_frame() {
    assert!(fits_in_a_frame(&Bytes::new()));
    assert!(fits_in_a_frame(&Bytes::from_static(b"abc")));
}
