use fix_engine::attribute_enums::{FixEnum, MsgType};
use fix_engine::fix_msg_builder::{
    add_char_field, add_checksum_field, add_int_field, add_string_field, add_u64_field,
    build_fix_heartbeat, build_fix_logon, build_fix_test_request, create_fix_heartbeat,
    create_fix_logon, create_fix_test_request, generate_check_sum, new_build_fix_heartbeat,
    new_create_fix_heartbeat, utc_timestamp, utc_timestamp_compact, SessionHeader,
};
use fix_engine::tags;

#[test]
fn test_add_enum_field() {
    let mut msg = String::from("8=FIX.4.4\u{1}9=58\u{1}");
    add_char_field(&mut msg, &tags::msg_type(), MsgType::HeartBeat.value());
    assert_eq!(msg, "8=FIX.4.4\u{1}9=58\u{1}35=0\u{1}");
}

#[test]
fn test_add_string_field() {
    let mut msg = String::from("8=FIX.4.4\u{1}9=58\u{1}");
    add_char_field(&mut msg, &tags::msg_type(), MsgType::HeartBeat.value());
    assert_eq!(msg, "8=FIX.4.4\u{1}9=58\u{1}35=0\u{1}");
}

#[test]
fn test_create_fix_heartbeat() {
    let hdr = SessionHeader::new("8=FIX.4.2", "TEST_SERVER", "TEST_CLIENT");

    let mut msg = String::from("");
    let s = chrono::offset::Utc::now();
    create_fix_heartbeat(&mut msg, 0, "test");
    let e = chrono::offset::Utc::now();
    println!("Duration:{}", e - s);
    println!("{msg}");

    let mut msg = String::from("");
    let s = chrono::offset::Utc::now();
    new_create_fix_heartbeat(&mut msg, &hdr, 0, "test");
    let e = chrono::offset::Utc::now();
    println!("Duration:{}", e - s);
    println!("{msg}");

    let mut msg = String::from("");
    let s = chrono::offset::Utc::now();
    create_fix_heartbeat(&mut msg, 0, "test");
    let e = chrono::offset::Utc::now();
    println!("Duration:{}", e - s);
    println!("{msg}");

    let mut msg = String::from("");
    let s = chrono::offset::Utc::now();
    new_create_fix_heartbeat(&mut msg, &hdr, 0, "test");
    let e = chrono::offset::Utc::now();
    println!("Duration:{}", e - s);
    println!("{msg}");
}

#[test]
fn test_new_create_fix_heartbeat() {
    let hdr = SessionHeader::new("8=FIX.4.2", "TEST_SERVER", "TEST_CLIENT");

    let mut msg = String::from("");
    let s = chrono::offset::Utc::now();
    new_create_fix_heartbeat(&mut msg, &hdr, 0, "test");
    let e = chrono::offset::Utc::now();
    println!("Duration:{}", e - s);
    println!("{msg}");
}

#[test]
fn test_create_fix_logon() {
    let mut msg = String::from("");

    let s = chrono::offset::Utc::now();
    create_fix_logon(&mut msg, 0, 10, fix_engine::attribute_enums::EncryptMethod::NONE);
    let e = chrono::offset::Utc::now();
    println!("Duration:{}", e - s);
    println!("{msg}");
}

#[test]
fn test_create_fix_test_request() {
    let mut msg = String::from("");

    let s = chrono::offset::Utc::now();
    create_fix_test_request(&mut msg, 0);
    let e = chrono::offset::Utc::now();
    println!("Duration:{}", e - s);
    println!("{msg}");
}

#[test]
fn heartbeat_with_fixed_time_is_byte_exact() {
    let mut msg = String::new();
    build_fix_heartbeat(&mut msg, 3, "", "20190605-12:29:20.259");
    assert_eq!(
        msg,
        "8=FIX.4.2\u{1}9=65\u{1}35=0\u{1}49=TEST_SERVER\u{1}56=TEST_CLIENT\u{1}34=3\u{1}52=20190605-12:29:20.259\u{1}10=178\u{1}"
    );
}

#[test]
fn heartbeat_includes_test_request_id_only_when_nonempty() {
    let mut without = String::new();
    build_fix_heartbeat(&mut without, 0, "", "20190605-12:29:20.259");
    assert!(!without.contains("112="));
    let mut with = String::new();
    build_fix_heartbeat(&mut with, 0, "abc", "20190605-12:29:20.259");
    assert!(with.contains("\u{1}112=abc\u{1}"));
}

#[test]
fn logon_with_fixed_time_is_byte_exact() {
    let mut msg = String::new();
    build_fix_logon(
        &mut msg,
        0,
        30,
        fix_engine::attribute_enums::EncryptMethod::NONE,
        "20190605-12:29:20.259",
    );
    assert_eq!(
        msg,
        "8=FIX.4.2\u{1}9=77\u{1}35=A\u{1}49=TEST_SERVER\u{1}56=TEST_CLIENT\u{1}34=0\u{1}52=20190605-12:29:20.259\u{1}98=0\u{1}108=30\u{1}10=220\u{1}"
    );
}

#[test]
fn test_request_body_length_covers_correlation_id() {
    // The body-length field must count through the last body field, the
    // correlation id included.
    let mut msg = String::new();
    build_fix_test_request(&mut msg, 0, "20190605162917419", "20190605-12:29:20.259");
    let body_start = msg.find("35=").unwrap();
    let trailer_start = msg.rfind("10=").unwrap();
    let body_len = trailer_start - body_start;
    let declared: usize = {
        let after = &msg[msg.find("9=").unwrap() + 2..];
        after[..after.find('\u{1}').unwrap()].parse().unwrap()
    };
    assert_eq!(declared, body_len);
}

#[test]
fn checksum_field_is_three_zero_padded_digits() {
    let mut buf = String::from("x");
    add_checksum_field(&mut buf, &tags::check_sum(), 7);
    assert_eq!(buf, "x10=007\u{1}");
    let mut buf2 = String::new();
    add_checksum_field(&mut buf2, &tags::check_sum(), 255);
    assert_eq!(buf2, "10=255\u{1}");
}

#[test]
fn built_message_trailer_matches_checksum_of_front() {
    let mut msg = String::new();
    build_fix_heartbeat(&mut msg, 12, "id-1", "20241228-17:10:29.938");
    let trailer_start = msg.rfind("10=").unwrap();
    let front = &msg[..trailer_start];
    let cks = generate_check_sum(front);
    assert_eq!(&msg[trailer_start..], format!("10={:03}\u{1}", cks));
}

#[test]
fn string_and_number_fields_render_exactly() {
    let mut buf = String::new();
    add_string_field(&mut buf, &tags::test_req_id(), "hello");
    assert_eq!(buf, "112=hello\u{1}");
    let mut buf2 = String::new();
    add_u64_field(&mut buf2, &tags::heartbt_int(), 0);
    add_u64_field(&mut buf2, &tags::heartbt_int(), 12034);
    assert_eq!(buf2, "108=0\u{1}108=12034\u{1}");
    let mut buf3 = String::new();
    add_int_field(&mut buf3, &tags::msg_seq_no(), -45);
    assert_eq!(buf3, "34=-45\u{1}");
}

#[test]
fn session_header_heartbeat_uses_configured_identities() {
    let hdr = SessionHeader::new("8=FIX.4.2", "ACME_GW", "BROKER9");
    let mut msg = String::new();
    new_build_fix_heartbeat(&mut msg, &hdr, 7, "ping", "20190605-12:29:20.259");
    assert!(msg.starts_with("8=FIX.4.2\u{1}9="));
    assert!(msg.contains("\u{1}49=ACME_GW\u{1}56=BROKER9\u{1}34=7\u{1}"));
    assert!(msg.contains("\u{1}112=ping\u{1}"));
    let trailer_start = msg.rfind("10=").unwrap();
    let cks = generate_check_sum(&msg[..trailer_start]);
    assert_eq!(&msg[trailer_start..], format!("10={:03}\u{1}", cks));
}

#[test]
fn timestamps_use_only_clock_characters() {
    let ts = utc_timestamp();
    assert!(ts.chars().all(|c| c.is_ascii_digit() || c == '-' || c == ':' || c == '.' || c == '+'));
    let compact = utc_timestamp_compact();
    assert!(compact
        .chars()
        .all(|c| c.is_ascii_digit() || c == '-' || c == ':' || c == '.' || c == '+'));
}
