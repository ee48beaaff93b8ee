use bytes::BytesMut;
use fix_engine::fix_decoder::{FramingError, MyFIXDecoder};
use fix_engine::fix_message::FixMessage;
use fix_engine::fix_msg_builder::build_fix_heartbeat;

fn built_heartbeat() -> String {
    let mut msg = String::new();
    build_fix_heartbeat(&mut msg, 3, "", "20190605-12:29:20.259");
    msg
}

#[test]
fn decode_round_trips_a_built_heartbeat() {
    let msg = built_heartbeat();
    let decoder = MyFIXDecoder::new("4.2");
    let buf = BytesMut::from(msg.as_bytes());
    let decoded = decoder.decode(&buf).unwrap().unwrap();
    assert_eq!(decoded, msg);
    let parsed = FixMessage::new(&decoded);
    assert_eq!(parsed.get_msg_type(), '0');
    assert_eq!(
        parsed.get_body(),
        "\u{1}49=TEST_SERVER\u{1}56=TEST_CLIENT\u{1}34=3\u{1}52=20190605-12:29:20.259"
    );
}

#[test]
fn decode_returns_incomplete_for_every_prefix() {
    let msg = built_heartbeat();
    let decoder = MyFIXDecoder::new("4.2");
    for k in 0..msg.len() {
        let buf = BytesMut::from(&msg.as_bytes()[..k]);
        assert_eq!(decoder.decode(&buf), Ok(None), "prefix of {k} bytes");
    }
}

#[test]
fn decode_rejects_non_digit_in_body_length() {
    let msg = built_heartbeat();
    // corrupt the body-length field: "9=65" becomes "9=6x"
    assert_eq!(&msg[12..14], "65");
    let mut bytes = msg.into_bytes();
    bytes[13] = b'x';
    let msg = String::from_utf8(bytes).unwrap();
    let decoder = MyFIXDecoder::new("4.2");
    let buf = BytesMut::from(msg.as_bytes());
    assert_eq!(decoder.decode(&buf), Err(FramingError::MalformedLength));
}

#[test]
fn decode_rejects_non_digit_in_checksum() {
    let msg = built_heartbeat();
    let n = msg.len();
    let mut bytes = msg.into_bytes();
    bytes[n - 4] = b'Z';
    let msg = String::from_utf8(bytes).unwrap();
    let decoder = MyFIXDecoder::new("4.2");
    let buf = BytesMut::from(msg.as_bytes());
    assert_eq!(decoder.decode(&buf), Err(FramingError::MalformedChecksum));
}

#[test]
fn decode_waits_on_foreign_leading_bytes() {
    let decoder = MyFIXDecoder::new("4.2");
    let garbage = vec![b'x'; 100];
    let buf = BytesMut::from(&garbage[..]);
    assert_eq!(decoder.decode(&buf), Ok(None));
}

#[test]
fn decode_prefix_match_ignores_ascii_case() {
    let msg = built_heartbeat();
    let mut lowered = msg.clone().into_bytes();
    for b in lowered.iter_mut().take(12) {
        b.make_ascii_lowercase();
    }
    let decoder = MyFIXDecoder::new("4.2");
    let buf = BytesMut::from(&lowered[..]);
    let decoded = decoder.decode(&buf).unwrap().unwrap();
    assert_eq!(decoded.as_bytes(), &lowered[..]);
}

#[test]
fn decode_leaves_trailing_bytes_for_the_next_call() {
    let msg = built_heartbeat();
    let mut two = msg.clone();
    two.push_str(&msg);
    let decoder = MyFIXDecoder::new("4.2");
    let buf = BytesMut::from(two.as_bytes());
    let decoded = decoder.decode(&buf).unwrap().unwrap();
    assert_eq!(decoded, msg);
    // the buffer is untouched; the caller discards the consumed bytes
    assert_eq!(buf.len(), two.len());
}

#[test]
fn unsupported_version_falls_back_to_42() {
    let msg = built_heartbeat();
    let decoder = MyFIXDecoder::new("9.9");
    let buf = BytesMut::from(msg.as_bytes());
    assert_eq!(decoder.decode(&buf).unwrap().unwrap(), msg);
}

#[test]
fn version_44_decoder_expects_44_header() {
    let msg = built_heartbeat();
    let decoder = MyFIXDecoder::new("4.4");
    let buf = BytesMut::from(msg.as_bytes());
    // a 4.2 message never matches the 4.4 template
    assert_eq!(decoder.decode(&buf), Ok(None));
}

#[test]
fn fix_message_splits_doc_example() {
    let wire = "8=FIX.4.2\u{1}9=77\u{1}35=A\u{1}34=0\u{1}49=TEST_CLIENT\u{1}56=TEST_SERVER\u{1}52=20250119-16:13:08.931\u{1}98=0\u{1}108=30\u{1}10=217\u{1}".to_string();
    let m = FixMessage::new(&wire);
    assert_eq!(m.get_msg_type(), 'A');
    assert_eq!(
        m.get_body(),
        "\u{1}34=0\u{1}49=TEST_CLIENT\u{1}56=TEST_SERVER\u{1}52=20250119-16:13:08.931\u{1}98=0\u{1}108=30"
    );
}

#[test]
fn fix_message_dummy_carries_body_and_type() {
    let body = String::from("35=1");
    let m = FixMessage::dummy(&body, '1');
    assert_eq!(m.get_msg_type(), '1');
    assert_eq!(m.get_body(), "35=1");
}
