use melatonin_bot::delivery::Broadcast;
use melatonin_bot::handler::{alert_done_reply, server_error_reply, FireSession};
use melatonin_bot::json::ParseError;

fn body(s: &str) -> Vec<u8> {
    s.as_bytes().to_vec()
}

fn session_delivery(s: &mut FireSession) -> &mut Broadcast {
    match s {
        FireSession::Broadcasting { delivery, .. } => delivery,
        FireSession::Rejected { .. } => panic!("body was rejected"),
    }
}

#[test]
fn both_sends_succeed_in_order() {
    let b = body(r#"{"from":"sensor-1","theme":"cpu","text":"load high"}"#);
    let mut s = FireSession::start(vec![111, 222], &b);
    {
        let d = session_delivery(&mut s);
        assert_eq!(d.message().as_str(), "load high");
        assert_eq!(d.next_recipient(), Some(111));
        d.record_success();
        assert_eq!(d.next_recipient(), Some(222));
        d.record_success();
        assert_eq!(d.next_recipient(), None);
        assert!(!d.has_failed());
    }
    let r = s.response();
    assert_eq!(r.status, 200);
    assert_eq!(r.body, "Alert done");
    let log = s.success_log_line().unwrap();
    assert_eq!(log, "Admins were informed. From: sensor-1 / Theme: cpu");
}

#[test]
fn first_send_fails_fail_fast() {
    let b = body(r#"{"from":"sensor-1","theme":"cpu","text":"load high"}"#);
    let mut s = FireSession::start(vec![111, 222], &b);
    {
        let d = session_delivery(&mut s);
        assert_eq!(d.next_recipient(), Some(111));
        d.record_failure();
        // 222 is never handed out.
        assert_eq!(d.next_recipient(), None);
        assert!(d.has_failed());
    }
    let r = s.response();
    assert_eq!(r.status, 500);
    assert_eq!(r.body, "Something went wrong!");
}

#[test]
fn second_send_fails_first_admin_already_notified() {
    let b = body(r#"{"from":"f","theme":"t","text":"x"}"#);
    let mut s = FireSession::start(vec![111, 222, 333], &b);
    {
        let d = session_delivery(&mut s);
        assert_eq!(d.next_recipient(), Some(111));
        d.record_success();
        assert_eq!(d.next_recipient(), Some(222));
        d.record_failure();
        assert_eq!(d.next_recipient(), None);
    }
    assert_eq!(s.response().status, 500);
}

#[test]
fn malformed_body_never_hands_out_an_admin() {
    let b = body("not json at all");
    let s = FireSession::start(vec![111, 222], &b);
    match &s {
        FireSession::Rejected { error } => assert_eq!(*error, ParseError::Malformed),
        FireSession::Broadcasting { .. } => panic!("malformed body must be rejected"),
    }
    let r = s.response();
    assert_eq!(r.status, 500);
    assert_eq!(r.body, "Something went wrong!");
    assert_eq!(s.success_log_line(), None);
}

#[test]
fn missing_text_member_never_hands_out_an_admin() {
    let b = body(r#"{"from":"a","theme":"b"}"#);
    let s = FireSession::start(vec![111], &b);
    match &s {
        FireSession::Rejected { error } => assert_eq!(*error, ParseError::MissingField),
        FireSession::Broadcasting { .. } => panic!("incomplete body must be rejected"),
    }
    assert_eq!(s.response().status, 500);
}

#[test]
fn message_text_is_platform_escaped() {
    let b = body(r#"{"from":"f","theme":"t","text":"load_high (now!)"}"#);
    let mut s = FireSession::start(vec![111], &b);
    let d = session_delivery(&mut s);
    assert_eq!(d.message().as_str(), "load\\_high \\(now\\!\\)");
}

#[test]
fn plain_text_is_unchanged_by_escaping() {
    let b = body(r#"{"from":"f","theme":"t","text":"load high"}"#);
    let mut s = FireSession::start(vec![111], &b);
    let d = session_delivery(&mut s);
    assert_eq!(d.message().as_str(), "load high");
}

#[test]
fn empty_admin_list_is_immediately_complete() {
    let b = body(r#"{"from":"f","theme":"t","text":"x"}"#);
    let mut s = FireSession::start(vec![], &b);
    {
        let d = session_delivery(&mut s);
        assert_eq!(d.next_recipient(), None);
    }
    assert_eq!(s.response().status, 200);
}

#[test]
fn duplicate_admins_are_notified_twice() {
    let b = body(r#"{"from":"f","theme":"t","text":"x"}"#);
    let mut s = FireSession::start(vec![7, 7], &b);
    let d = session_delivery(&mut s);
    assert_eq!(d.next_recipient(), Some(7));
    d.record_success();
    assert_eq!(d.next_recipient(), Some(7));
    d.record_success();
    assert_eq!(d.next_recipient(), None);
}

#[test]
fn reply_constructors_are_fixed() {
    let ok = alert_done_reply();
    assert_eq!(ok.status, 200);
    assert_eq!(ok.body, "Alert done");
    let err = server_error_reply();
    assert_eq!(err.status, 500);
    assert_eq!(err.body, "Something went wrong!");
}
