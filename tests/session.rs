use paper::session::{Action, Phase, Session, Signal, DEBOUNCE_MS};

fn configure(token: u32, now_ms: u64) -> Signal {
    Signal::Configure { token, width: 1920, height: 1080, now_ms }
}

#[test]
fn configure_storm_is_debounced() {
    let mut s = Session::new(200);
    let mut renders = 0;
    let mut acks = 0;
    for (token, now) in [(1u32, 1000u64), (2, 1050)] {
        match s.handle(configure(token, now)) {
            Action::Redraw { token: t, .. } => {
                assert_eq!(t, token);
                renders += 1;
                acks += 1;
                assert!(s.handle(Signal::Drawn) == Action::Ignore);
            }
            Action::Acknowledge { token: t } => {
                assert_eq!(t, token);
                acks += 1;
            }
            _ => panic!("unexpected action"),
        }
    }
    assert_eq!(renders, 1);
    assert_eq!(acks, 2);
    assert!(s.phase == Phase::Rendered);
}

#[test]
fn configure_after_window_redraws() {
    let mut s = Session::new(200);
    assert!(s.handle(configure(1, 1000)) == Action::Redraw { token: 1, width: 1920, height: 1080 });
    assert!(s.phase == Phase::AwaitingAck);
    assert!(s.handle(Signal::Drawn) == Action::Ignore);
    assert!(s.handle(configure(2, 1199)) == Action::Acknowledge { token: 2 });
    assert!(s.handle(configure(3, 1200)) == Action::Redraw { token: 3, width: 1920, height: 1080 });
    assert_eq!(s.last_redraw, Some(1200));
}

#[test]
fn default_window() {
    let s = Session::new(DEBOUNCE_MS);
    assert_eq!(s.debounce_ms, 300);
    assert!(s.phase == Phase::Unconfigured);
    assert!(s.last_redraw.is_none());
    assert!(!s.is_debounced(0));
}

#[test]
fn closed_session_ignores_everything() {
    let mut s = Session::new(200);
    assert!(s.handle(Signal::Closed) == Action::Release);
    assert!(s.phase == Phase::Closed);
    assert!(s.handle(configure(5, 10_000)) == Action::Ignore);
    assert!(s.handle(Signal::Closed) == Action::Ignore);
    assert!(s.handle(Signal::Drawn) == Action::Ignore);
    assert!(s.phase == Phase::Closed);
}

#[test]
fn resize_failure_ends_the_session() {
    let mut s = Session::new(200);
    assert!(s.handle(Signal::ResizeFailed) == Action::Ignore);
    assert!(s.phase == Phase::Unconfigured);
    s.handle(configure(1, 0));
    assert!(s.handle(Signal::ResizeFailed) == Action::Release);
    assert!(s.phase == Phase::Closed);
}
