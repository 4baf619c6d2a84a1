use bytes::Bytes;
use tonic_grpc::framing::frame_message;
use tonic_grpc::request_pump::{PumpAction, PumpEvent, RequestPump};
use tonic_grpc::status::Code;

/// Pumps a body that comes in the given chunks, and returns what was sent and whether it was refused.
fn pump(chunks: &[&[u8]]) -> (Vec<Vec<u8>>, bool) {
    let mut pump = RequestPump::new();
    let mut sent = Vec::new();
    for chunk in chunks {
        let chunk = Bytes::copy_from_slice(chunk);
        assert!(pump.has_room(&chunk));
        let mut action = pump.step(PumpEvent::Data(chunk));
        while let PumpAction::Send(message) = action {
            sent.push(message.0.to_vec());
            action = pump.step(PumpEvent::Sent);
        }
        if let PumpAction::Refuse(status) = action {
            assert_eq!(status.code(), Code::Unimplemented);
            return (sent, true);
        }
        assert!(matches!(action, PumpAction::Read));
    }
    assert!(matches!(pump.step(PumpEvent::BodyEnd), PumpAction::Finish));
    (sent, false)
}

fn body() -> Vec<u8> {
    let mut bytes = Vec::new();
    for payload in [&b"first"[..], b"", b"second one"] {
        bytes.extend_from_slice(&frame_message(&Bytes::copy_from_slice(payload)));
    }
    bytes
}

#[test]
fn chunks_do_not_matter() {
    let bytes = body();
    let want = vec![b"first".to_vec(), b"".to_vec(), b"second one".to_vec()];
    assert_eq!(pump(&[&bytes]), (want.clone(), false));
    for cut in 0..bytes.len() {
        let (a, b) = bytes.split_at(cut);
        assert_eq!(pump(&[a, b]), (want.clone(), false));
    }
    let single: Vec<&[u8]> = bytes.chunks(1).collect();
    assert_eq!(pump(&single), (want, false));
}

#[test]
fn compressed_data_is_refused_behind_what_was_sent() {
    let mut bytes = body();
    bytes.extend_from_slice(&[1, 0, 0, 0, 1, 42]);
    bytes.extend_from_slice(&body());
    let want = vec![b"first".to_vec(), b"".to_vec(), b"second one".to_vec()];
    for cut in 0..bytes.len() {
        let (a, b) = bytes.split_at(cut);
        assert_eq!(pump(&[a, b]), (want.clone(), true));
    }
}

#[test]
fn incomplete_message_is_dropped() {
    let bytes = body();
    let want = vec![b"first".to_vec(), b"".to_vec()];
    assert_eq!(pump(&[&bytes[..bytes.len() - 1]]), (want, false));
}

#[test]
fn pieces_that_are_not_data_are_skipped() {
    let mut pump = RequestPump::new();
    assert!(matches!(pump.step(PumpEvent::NotData), PumpAction::Read));
    assert!(matches!(pump.step(PumpEvent::Data(Bytes::new())), PumpAction::Read));
    assert!(matches!(pump.step(PumpEvent::BodyEnd), PumpAction::Finish));
}

#[test]
fn failure_to_send_ends_the_pump() {
    let mut pump = RequestPump::new();
    assert!(matches!(pump.step(PumpEvent::Data(Bytes::from(body()))), PumpAction::Send(_)));
    assert!(matches!(pump.step(PumpEvent::SendFailed), PumpAction::Finish));
}
