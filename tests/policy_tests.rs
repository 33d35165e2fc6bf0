use imapidle::pump::{bytes_to_take, next_phase, PumpPhase, READ_CHUNK};
use imapidle::protocol::ProtocolError;
use imapidle::reconnect::{
    classify, Backoff, Decision, FailureClass, IoFailure, SessionEnd, MAX_BACKOFF,
};
use imapidle::scheduler::{timer_decision, RunStatus, TimerDecision, FALLBACK_WAIT};

#[test]
fn backoff_sequence() {
    let mut b = Backoff::standard();
    let classes = [
        FailureClass::Unreachable,
        FailureClass::Unreachable,
        FailureClass::Unreachable,
        FailureClass::Transient,
        FailureClass::Unreachable,
    ];
    let waits: Vec<Decision> = classes.iter().map(|c| b.on_outcome(*c)).collect();
    assert_eq!(
        waits,
        vec![
            Decision::Retry(1),
            Decision::Retry(2),
            Decision::Retry(4),
            Decision::Retry(10),
            Decision::Retry(1)
        ]
    );
}

#[test]
fn backoff_caps() {
    let mut b = Backoff::standard();
    let mut last = 0;
    for _ in 0..20 {
        if let Decision::Retry(w) = b.on_outcome(FailureClass::Unreachable) {
            last = w;
        }
    }
    assert_eq!(last, MAX_BACKOFF);
    let mut small = Backoff::new(3, 10, 5);
    let got: Vec<Decision> = (0..4).map(|_| small.on_outcome(FailureClass::Unreachable)).collect();
    assert_eq!(
        got,
        vec![Decision::Retry(3), Decision::Retry(6), Decision::Retry(10), Decision::Retry(10)]
    );
}

#[test]
fn fatal_stops() {
    let mut b = Backoff::standard();
    assert_eq!(
        b.after_session(SessionEnd::Rejected(ProtocolError::AuthenticationRejected)),
        Decision::Stop
    );
    assert_eq!(b.after_session(SessionEnd::Other), Decision::Stop);
    assert_eq!(b.after_session(SessionEnd::Io(IoFailure::Other)), Decision::Stop);
}

#[test]
fn read_timeout_is_transient() {
    assert_eq!(classify(SessionEnd::Io(IoFailure::ReadTimedOut)), FailureClass::Transient);
    let mut b = Backoff::standard();
    assert_eq!(b.after_session(SessionEnd::Io(IoFailure::ReadTimedOut)), Decision::Retry(10));
}

#[test]
fn classification() {
    assert_eq!(classify(SessionEnd::Finished), FailureClass::Transient);
    assert_eq!(classify(SessionEnd::Io(IoFailure::Interrupted)), FailureClass::Transient);
    assert_eq!(classify(SessionEnd::Io(IoFailure::ClosedByPeer)), FailureClass::Transient);
    for f in [
        IoFailure::ConnectionRefused,
        IoFailure::ConnectionReset,
        IoFailure::ConnectionAborted,
        IoFailure::NotConnected,
        IoFailure::HostUnreachable,
        IoFailure::NetworkUnreachable,
        IoFailure::NameResolution,
    ] {
        assert_eq!(classify(SessionEnd::Io(f)), FailureClass::Unreachable);
    }
    assert_eq!(
        classify(SessionEnd::Rejected(ProtocolError::SelectRejected)),
        FailureClass::Fatal
    );
}

#[test]
fn interval_timer_scenarios() {
    assert_eq!(timer_decision(60, true, 61), TimerDecision { run: true, wait: 60 });
    assert_eq!(timer_decision(60, true, 10), TimerDecision { run: false, wait: 50 });
    assert_eq!(timer_decision(60, true, 60), TimerDecision { run: true, wait: 60 });
    assert_eq!(
        timer_decision(60, false, 61),
        TimerDecision { run: false, wait: FALLBACK_WAIT }
    );
}

#[test]
fn timer_tick_through_status() {
    let mut s = RunStatus::new(1000);
    s.mark_connected();
    let d = s.timer_tick(60, 1061);
    assert_eq!(d, TimerDecision { run: true, wait: 60 });
    assert!(s.running);
    s.finish_run(1062);
    assert!(!s.running);
    assert_eq!(s.last_run, 1062);
    assert_eq!(s.timer_tick(60, 1072), TimerDecision { run: false, wait: 50 });
    s.mark_disconnected();
    assert_eq!(s.timer_tick(60, 2000), TimerDecision { run: false, wait: FALLBACK_WAIT });
}

#[test]
fn no_overlapping_runs() {
    let mut s = RunStatus::new(0);
    s.mark_connected();
    assert!(s.begin_mail_run());
    let d = s.timer_tick(60, 100);
    assert!(!d.run);
    assert!(!s.begin_mail_run());
    s.finish_run(101);
    assert!(s.begin_mail_run());
    s.finish_run(102);
    assert!(!s.running);
}

#[test]
fn pump_phases() {
    assert_eq!(next_phase(true, true, true), PumpPhase::Handshake);
    assert_eq!(next_phase(false, true, true), PumpPhase::Flush);
    assert_eq!(next_phase(false, false, true), PumpPhase::Read);
    assert_eq!(next_phase(false, false, false), PumpPhase::Closed);
}

#[test]
fn chunk_size() {
    assert_eq!(bytes_to_take(0), 0);
    assert_eq!(bytes_to_take(17), 17);
    assert_eq!(bytes_to_take(5000), READ_CHUNK);
}
