use tunapp::relay::{RelayAction, RelayEvent, RelayState};

fn sent(a: &RelayAction) -> Vec<u8> {
    match a {
        RelayAction::SendToRemote(b) => b.clone(),
        _ => panic!("expected bytes for the channel"),
    }
}

fn written(a: &RelayAction) -> Vec<u8> {
    match a {
        RelayAction::WriteToLocal(b) => b.clone(),
        _ => panic!("expected bytes for the local socket"),
    }
}

#[test]
fn request_and_response_pass_unmodified() {
    let mut s = RelayState::new();
    let request = b"GET / HTTP/1.1\r\n\r\n".to_vec();
    let a = s.step(RelayEvent::LocalRead(request.clone()));
    assert_eq!(sent(&a), request);
    assert_eq!(s, RelayState::Active);
    let response = b"HTTP/1.1 200 OK\r\nContent-Length: 2\r\n\r\nhi".to_vec();
    let a = s.step(RelayEvent::RemoteData(response.clone()));
    assert_eq!(written(&a), response);
    let a = s.step(RelayEvent::LocalRead(Vec::new()));
    assert!(matches!(a, RelayAction::SendEof));
    assert_eq!(s, RelayState::LocalHalfClosed);
    let a = s.step(RelayEvent::EofSent);
    assert!(matches!(a, RelayAction::Release));
    assert!(s.is_closed());
}

#[test]
fn half_close_sends_bytes_then_eof() {
    let mut s = RelayState::new();
    let mut out = Vec::new();
    for chunk in [b"abc".to_vec(), b"de".to_vec(), b"f".to_vec()] {
        let a = s.step(RelayEvent::LocalRead(chunk));
        out.extend(sent(&a));
    }
    assert_eq!(out, b"abcdef".to_vec());
    assert!(matches!(s.step(RelayEvent::LocalRead(Vec::new())), RelayAction::SendEof));
    // the pair does not read again: whatever comes next closes it
    assert!(matches!(s.step(RelayEvent::LocalRead(b"late".to_vec())), RelayAction::Release));
    assert!(s.is_closed());
}

#[test]
fn every_ending_releases_once() {
    let endings = [
        RelayEvent::LocalReadFailed,
        RelayEvent::LocalWriteFailed,
        RelayEvent::RemoteEof,
        RelayEvent::RemoteClose,
        RelayEvent::RemoteEnded,
        RelayEvent::RemoteWriteFailed,
    ];
    for e in endings {
        let mut s = RelayState::new();
        assert!(matches!(s.step(e), RelayAction::Release));
        assert!(s.is_closed());
        assert!(matches!(s.step(RelayEvent::RemoteData(b"x".to_vec())), RelayAction::Idle));
        assert!(matches!(s.step(RelayEvent::RemoteClose), RelayAction::Idle));
        assert!(s.is_closed());
    }
}

#[test]
fn other_messages_are_ignored() {
    let mut s = RelayState::new();
    assert!(matches!(s.step(RelayEvent::RemoteOther), RelayAction::Wait));
    assert!(matches!(s.step(RelayEvent::EofSent), RelayAction::Wait));
    assert_eq!(s, RelayState::Active);
}

#[test]
fn empty_channel_data_is_written_as_is() {
    let mut s = RelayState::new();
    let a = s.step(RelayEvent::RemoteData(Vec::new()));
    assert_eq!(written(&a), Vec::<u8>::new());
    assert_eq!(s, RelayState::Active);
}

#[test]
fn two_pairs_do_not_interfere() {
    let mut p = RelayState::new();
    let mut q = RelayState::new();
    assert!(matches!(p.step(RelayEvent::LocalReadFailed), RelayAction::Release));
    let a = q.step(RelayEvent::LocalRead(b"still here".to_vec()));
    assert_eq!(sent(&a), b"still here".to_vec());
    assert!(p.is_closed());
    assert_eq!(q, RelayState::Active);
}
