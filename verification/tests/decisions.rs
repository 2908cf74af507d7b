use std::time::Duration;

use pty_expect::{exit_step, expect_verdict, PtyError};

#[test]
fn exit_step_reports_exit_code() {
    let r = exit_step(Ok(Some(0)), Duration::from_secs(10), false);
    assert!(matches!(r, Some(Ok(0))));
    let r = exit_step(Ok(Some(3)), Duration::from_secs(10), true);
    assert!(matches!(r, Some(Ok(3))));
}

#[test]
fn exit_step_reports_wait_failure() {
    let r = exit_step(Err("boom".to_string()), Duration::from_secs(10), false);
    match r {
        Some(Err(PtyError::Wait(m))) => assert_eq!(m, "boom"),
        other => panic!("unexpected {:?}", other),
    }
}

#[test]
fn exit_step_waits_then_times_out() {
    assert!(exit_step(Ok(None), Duration::from_secs(10), false).is_none());
    match exit_step(Ok(None), Duration::from_millis(250), true) {
        Some(Err(PtyError::Timeout(d, p))) => {
            assert_eq!(d, Duration::from_millis(250));
            assert_eq!(p, "<child exit>");
        }
        other => panic!("unexpected {:?}", other),
    }
}

#[test]
fn expect_verdict_prefers_a_match() {
    let r = expect_verdict(Some("ok".to_string()), true, true, "ok", Duration::from_secs(1));
    match r {
        Some(Ok(m)) => assert_eq!(m, "ok"),
        other => panic!("unexpected {:?}", other),
    }
}

#[test]
fn expect_verdict_eof_before_timeout() {
    match expect_verdict(None, true, true, "prompt> ", Duration::from_secs(1)) {
        Some(Err(PtyError::Eof(p))) => assert_eq!(p, "prompt> "),
        other => panic!("unexpected {:?}", other),
    }
}

#[test]
fn expect_verdict_timeout_and_pending() {
    match expect_verdict(None, false, true, "x+", Duration::from_secs(7)) {
        Some(Err(PtyError::Timeout(d, p))) => {
            assert_eq!(d, Duration::from_secs(7));
            assert_eq!(p, "x+");
        }
        other => panic!("unexpected {:?}", other),
    }
    assert!(expect_verdict(None, false, false, "x+", Duration::from_secs(7)).is_none());
}
