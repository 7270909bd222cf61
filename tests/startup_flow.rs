use tunapp::broker::{ChannelRequest, Handoff, HandoffAction};
use tunapp::host_key::HostKeyPolicy;
use tunapp::listener::{Listener, ListenerAction, ListenerEvent};
use tunapp::startup::{FatalError, Outcome, Phase};

#[test]
fn successful_startup_reaches_serving() {
    let mut p = Phase::start();
    let mut seen = vec![p];
    for _ in 0..5 {
        p.advance(Outcome::Done);
        seen.push(p);
    }
    assert_eq!(
        seen,
        vec![
            Phase::CheckConfig,
            Phase::Dial,
            Phase::LoadKey,
            Phase::Authenticate,
            Phase::Bind,
            Phase::Serve
        ]
    );
    assert_eq!(p.exit_status(), None);
    p.advance(Outcome::Done);
    assert_eq!(p, Phase::Serve);
    p.advance(Outcome::Failed);
    assert_eq!(p, Phase::Exit(FatalError::Accept));
    assert_eq!(p.exit_status(), Some(1));
}

#[test]
fn bad_key_exits_without_binding() {
    let mut p = Phase::start();
    p.advance(Outcome::Done);
    p.advance(Outcome::Done);
    assert_eq!(p, Phase::LoadKey);
    p.advance(Outcome::Failed);
    assert_eq!(p, Phase::Exit(FatalError::KeyLoad));
    assert_eq!(p.exit_status(), Some(1));
    p.advance(Outcome::Done);
    assert_eq!(p, Phase::Exit(FatalError::KeyLoad));
}

#[test]
fn missing_key_file_fails_the_config_step() {
    let mut p = Phase::start();
    p.advance(Outcome::Failed);
    assert_eq!(p, Phase::Exit(FatalError::Config));
    assert_eq!(p.exit_status(), Some(1));
}

#[test]
fn rejected_key_never_binds() {
    let mut p = Phase::start();
    for _ in 0..3 {
        p.advance(Outcome::Done);
    }
    assert_eq!(p, Phase::Authenticate);
    p.advance(Outcome::Rejected);
    assert_eq!(p, Phase::Exit(FatalError::AuthRejected));
    let mut q = Phase::Authenticate;
    q.advance(Outcome::Failed);
    assert_eq!(q, Phase::Exit(FatalError::Transport));
    let mut d = Phase::Dial;
    d.advance(Outcome::Failed);
    assert_eq!(d, Phase::Exit(FatalError::Handshake));
    let mut b = Phase::Bind;
    b.advance(Outcome::Failed);
    assert_eq!(b, Phase::Exit(FatalError::Bind));
}

#[test]
fn channel_opened_starts_one_relay() {
    let (mut h, first) = Handoff::accept();
    assert_eq!(first, HandoffAction::OpenChannel);
    assert_eq!(h.on_channel(true), HandoffAction::StartRelay);
    assert_eq!(h, Handoff::Relaying);
    assert_eq!(h.on_channel(false), HandoffAction::Nothing);
    assert_eq!(h, Handoff::Relaying);
}

#[test]
fn channel_refused_closes_the_connection() {
    let (mut h, _) = Handoff::accept();
    assert_eq!(h.on_channel(false), HandoffAction::CloseLocal);
    assert_eq!(h, Handoff::Discarded);
    assert_eq!(h.on_channel(true), HandoffAction::Nothing);
}

#[test]
fn channel_request_targets_the_remote() {
    let r = ChannelRequest::to_target(&"10.0.0.5".to_string(), 80);
    assert_eq!(r.host, "10.0.0.5");
    assert_eq!(r.port, 80u32);
    assert_eq!(r.originator_address, "127.0.0.1");
    assert_eq!(r.originator_port, 0);
}

#[test]
fn listener_survives_connection_failures() {
    let mut l = Listener::new(None);
    assert_eq!(l.on_event(ListenerEvent::Accepted), ListenerAction::HandOff);
    assert_eq!(l.on_event(ListenerEvent::Accepted), ListenerAction::HandOff);
    assert_eq!(l.live, 2);
    assert_eq!(l.on_event(ListenerEvent::ConnectionDone), ListenerAction::Continue);
    assert!(l.serving);
    assert_eq!(l.live, 1);
    assert_eq!(l.on_event(ListenerEvent::Accepted), ListenerAction::HandOff);
    assert_eq!(l.on_event(ListenerEvent::AcceptFailed), ListenerAction::Stop);
    assert!(!l.serving);
    assert_eq!(l.on_event(ListenerEvent::Accepted), ListenerAction::Stop);
}

#[test]
fn listener_limit_refuses_extra_connections() {
    let mut l = Listener::new(Some(1));
    assert_eq!(l.on_event(ListenerEvent::Accepted), ListenerAction::HandOff);
    assert_eq!(l.on_event(ListenerEvent::Accepted), ListenerAction::Refuse);
    assert_eq!(l.live, 1);
    assert_eq!(l.on_event(ListenerEvent::ConnectionDone), ListenerAction::Continue);
    assert_eq!(l.on_event(ListenerEvent::Accepted), ListenerAction::HandOff);
    assert_eq!(l.on_event(ListenerEvent::ConnectionDone), ListenerAction::Continue);
    assert_eq!(l.on_event(ListenerEvent::ConnectionDone), ListenerAction::Continue);
    assert_eq!(l.live, 0);
}

#[test]
fn host_key_policy_decides() {
    let fp = "SHA256:abc".to_string();
    assert!(HostKeyPolicy::AcceptAny.accepts(&fp));
    assert!(HostKeyPolicy::Pinned("SHA256:abc".to_string()).accepts(&fp));
    assert!(!HostKeyPolicy::Pinned("SHA256:abd".to_string()).accepts(&fp));
}
