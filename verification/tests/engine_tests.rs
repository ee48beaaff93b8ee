use fix_engine::application_message::ApplicationMessage;
use fix_engine::countdown_actor::{AlarmMessage, CountdownState};
use fix_engine::fix_message::FixMessage;
use fix_engine::fix_msg_handler::{get_field, parse_fix_message, parse_u64, MyFixMsgHandler};

fn drain_outbox(h: &mut MyFixMsgHandler) -> Vec<String> {
    let mut out = Vec::new();
    while let Some(m) = h.pop_outbound() {
        out.push(m.get_message().clone());
    }
    out
}

#[test]
fn sequence_counts_sends_and_store_keeps_them_in_order() {
    let mut h = MyFixMsgHandler::new();
    assert_eq!(h.next_outbound_seq(), 0);
    let n = 5;
    for _ in 0..n {
        h.on_alarm();
    }
    assert_eq!(h.next_outbound_seq(), n);
    assert_eq!(h.store_len(), n as usize);
    let sent = drain_outbox(&mut h);
    assert_eq!(sent.len(), n as usize);
    for (i, m) in sent.iter().enumerate() {
        assert!(m.contains(&format!("\u{1}34={}\u{1}", i)));
    }
}

#[test]
fn resend_replays_exactly_the_requested_range() {
    let mut h = MyFixMsgHandler::new();
    for _ in 0..5 {
        h.on_alarm();
    }
    let sent = drain_outbox(&mut h);
    assert_eq!(sent.len(), 5);
    let body = String::from("7=2\u{1}16=4\u{1}");
    let req = FixMessage::dummy(&body, '2');
    h.handle_fix_message(&req);
    let replayed = drain_outbox(&mut h);
    assert_eq!(replayed.len(), 2);
    assert_eq!(replayed[0], sent[2]);
    assert_eq!(replayed[1], sent[3]);
    // a replay assigns no new sequence numbers and stores nothing
    assert_eq!(h.next_outbound_seq(), 5);
    assert_eq!(h.store_len(), 5);
}

#[test]
fn resend_range_is_clamped_to_what_was_sent() {
    let mut h = MyFixMsgHandler::new();
    for _ in 0..3 {
        h.on_alarm();
    }
    let sent = drain_outbox(&mut h);
    let body = String::from("7=1\u{1}16=999\u{1}");
    let req = FixMessage::dummy(&body, '2');
    h.handle_fix_message(&req);
    let replayed = drain_outbox(&mut h);
    assert_eq!(replayed.len(), 2);
    assert_eq!(replayed[0], sent[1]);
    assert_eq!(replayed[1], sent[2]);
}

#[test]
fn resend_with_malformed_range_is_recovered_without_action() {
    let mut h = MyFixMsgHandler::new();
    h.on_alarm();
    drain_outbox(&mut h);
    let body = String::from("7=two\u{1}16=4\u{1}");
    let req = FixMessage::dummy(&body, '2');
    h.handle_fix_message(&req);
    assert!(h.pop_outbound().is_none());
    assert_eq!(h.next_outbound_seq(), 1);
}

#[test]
fn logon_while_down_replies_comes_up_and_arms_the_timer() {
    let mut h = MyFixMsgHandler::new();
    assert!(!h.is_up());
    let body = String::from("35=A\u{1}98=0\u{1}108=30\u{1}");
    let logon = FixMessage::dummy(&body, 'A');
    h.handle_fix_message(&logon);
    assert!(h.is_up());
    // exactly one logon reply went out
    let sent = drain_outbox(&mut h);
    assert_eq!(sent.len(), 1);
    assert!(sent[0].starts_with("8=FIX.4.2\u{1}"));
    assert!(sent[0].contains("\u{1}35=A") || sent[0].contains("35=A\u{1}"));
    assert!(sent[0].contains("\u{1}108=30\u{1}"));
    assert_eq!(h.next_outbound_seq(), 1);
    // the timer learns the interval in milliseconds
    assert_eq!(h.pop_interval_event(), Some(30000));
    assert_eq!(h.pop_interval_event(), None);
}

#[test]
fn logon_while_up_does_not_resend_logon() {
    let mut h = MyFixMsgHandler::new();
    let body = String::from("108=30\u{1}");
    h.handle_fix_message(&FixMessage::dummy(&body, 'A'));
    drain_outbox(&mut h);
    h.pop_interval_event();
    let body2 = String::from("108=45\u{1}");
    h.handle_fix_message(&FixMessage::dummy(&body2, 'A'));
    assert!(h.is_up());
    assert!(h.pop_outbound().is_none(), "idempotent logon receipt");
    assert_eq!(h.pop_interval_event(), Some(45000));
}

#[test]
fn logon_with_malformed_interval_is_rejected() {
    let mut h = MyFixMsgHandler::new();
    let body = String::from("108=soon\u{1}");
    h.handle_fix_message(&FixMessage::dummy(&body, 'A'));
    assert!(!h.is_up());
    assert!(h.pop_outbound().is_none());
    assert!(h.pop_interval_event().is_none());
}

#[test]
fn test_request_is_answered_with_matching_heartbeat() {
    let mut h = MyFixMsgHandler::new();
    // a decoded test-request body: the heartbeat must echo the tag-112
    // value, not the whole body
    let body = String::from("\u{1}34=7\u{1}49=PEER\u{1}112=liveness-probe-1\u{1}");
    h.handle_fix_message(&FixMessage::dummy(&body, '1'));
    let sent = drain_outbox(&mut h);
    assert_eq!(sent.len(), 1);
    assert!(sent[0].contains("35=0\u{1}"));
    assert!(sent[0].contains("\u{1}112=liveness-probe-1\u{1}"));
    assert!(!sent[0].contains("49=PEER"));
}

#[test]
fn test_request_without_correlation_id_gets_plain_heartbeat() {
    let mut h = MyFixMsgHandler::new();
    let body = String::from("\u{1}34=7\u{1}49=PEER\u{1}");
    h.handle_fix_message(&FixMessage::dummy(&body, '1'));
    let sent = drain_outbox(&mut h);
    assert_eq!(sent.len(), 1);
    assert!(sent[0].contains("35=0\u{1}"));
    assert!(!sent[0].contains("112="));
}

#[test]
fn heartbeat_and_unknown_types_change_nothing() {
    let mut h = MyFixMsgHandler::new();
    let body = String::from("x");
    h.handle_fix_message(&FixMessage::dummy(&body, '0'));
    h.handle_fix_message(&FixMessage::dummy(&body, '4'));
    h.handle_fix_message(&FixMessage::dummy(&body, 'Q'));
    assert_eq!(h.next_outbound_seq(), 0);
    assert!(h.pop_outbound().is_none());
    assert!(h.pop_interval_event().is_none());
    assert!(!h.is_up());
}

#[test]
fn alarm_heartbeat_has_empty_test_request_id() {
    let mut h = MyFixMsgHandler::new();
    h.on_alarm();
    let sent = drain_outbox(&mut h);
    assert_eq!(sent.len(), 1);
    assert!(sent[0].contains("35=0\u{1}"));
    assert!(!sent[0].contains("112="));
}

#[test]
fn parse_u64_accepts_digits_and_rejects_the_rest() {
    assert_eq!(parse_u64("30"), Some(30));
    assert_eq!(parse_u64("0"), Some(0));
    assert_eq!(parse_u64(""), None);
    assert_eq!(parse_u64("3a"), None);
    assert_eq!(parse_u64("-1"), None);
    assert_eq!(parse_u64("18446744073709551615"), Some(u64::MAX));
    assert_eq!(parse_u64("18446744073709551616"), None);
    assert_eq!(parse_u64("99999999999999999999999999"), None);
}

#[test]
fn parse_fix_message_splits_and_last_occurrence_wins() {
    let mut fields: Vec<(String, String)> = Vec::new();
    parse_fix_message("35=A\u{1}\u{1}98=0\u{1}108=30\u{1}junk\u{1}108=45\u{1}", &mut fields);
    assert_eq!(
        fields,
        vec![
            ("35".to_string(), "A".to_string()),
            ("98".to_string(), "0".to_string()),
            ("108".to_string(), "30".to_string()),
            ("108".to_string(), "45".to_string()),
        ]
    );
    assert_eq!(get_field(&fields, "108"), Some("45".to_string()));
    assert_eq!(get_field(&fields, "98"), Some("0".to_string()));
    assert_eq!(get_field(&fields, "7"), None);
}

#[test]
fn parse_fix_message_keeps_later_equals_signs_in_the_value() {
    let mut fields: Vec<(String, String)> = Vec::new();
    parse_fix_message("58=a=b\u{1}", &mut fields);
    assert_eq!(fields, vec![("58".to_string(), "a=b".to_string())]);
}

#[test]
fn application_message_round_trips_its_text() {
    let m = ApplicationMessage::new("8=FIX.4.2\u{1}9=5\u{1}35=0\u{1}".to_string());
    assert_eq!(m.get_message().as_str(), "8=FIX.4.2\u{1}9=5\u{1}35=0\u{1}");
    let c = m.clone();
    assert_eq!(c.get_message(), m.get_message());
}

#[test]
fn countdown_state_emits_alarms_only_once_armed() {
    let mut t = CountdownState::new();
    assert!(t.on_tick().is_none());
    t.on_interval(30000);
    assert!(matches!(t.on_tick(), Some(AlarmMessage::Alarm)));
    t.on_reset();
    assert!(matches!(t.on_tick(), Some(AlarmMessage::Alarm)));
}
