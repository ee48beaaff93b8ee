use fix_engine::attribute_enums::{EncryptMethod, FixEnum, MsgType};
use fix_engine::encrypt_method_enum;
use fix_engine::id_source::IdSource;
use fix_engine::ord_status::OrdStatus;
use fix_engine::side::Side;
use fix_engine::tags;
use fix_engine::time_in_force::TimeInForce;
use fix_engine::value_types::{FixTag, ValueType, SEQ_NO, STRING};

#[test]
fn msg_type_maps_to_canonical_wire_codes() {
    assert_eq!(MsgType::HeartBeat.value(), '0');
    assert_eq!(MsgType::TestRequest.value(), '1');
    assert_eq!(MsgType::ResendRequest.value(), '2');
    assert_eq!(MsgType::SequenceReset.value(), '4');
    assert_eq!(MsgType::Logon.value(), 'A');
    assert_eq!(MsgType::NewOrderSingle.value(), 'D');
    assert_eq!(MsgType::ListStrikePrice.value(), 'm');
}

#[test]
fn encrypt_method_maps_to_canonical_wire_codes() {
    assert_eq!(EncryptMethod::NONE.value(), '0');
    assert_eq!(EncryptMethod::PEM_DES_MD5.value(), '6');
    assert_eq!(encrypt_method_enum::EncryptMethod::none().value(), '0');
    assert_eq!(encrypt_method_enum::EncryptMethod::pgp_des_md5().value(), '5');
}

#[test]
fn fix_tag_keeps_identifier_and_datatype() {
    let t = FixTag::new("35", STRING);
    assert_eq!(t.id(), "35");
    assert!(matches!(t.datatype(), ValueType::String));
    let t2 = FixTag::new("34", SEQ_NO);
    assert_eq!(t2.id(), "34");
    assert!(matches!(t2.datatype(), ValueType::Int));
}

#[test]
fn session_tags_carry_their_wire_identifiers() {
    assert_eq!(tags::begin_string().id(), "8");
    assert_eq!(tags::body_length().id(), "9");
    assert_eq!(tags::check_sum().id(), "10");
    assert_eq!(tags::msg_type().id(), "35");
    assert_eq!(tags::msg_seq_no().id(), "34");
    assert_eq!(tags::sender_comp_id().id(), "49");
    assert_eq!(tags::target_comp_id().id(), "56");
    assert_eq!(tags::sending_time().id(), "52");
    assert_eq!(tags::test_req_id().id(), "112");
    assert_eq!(tags::encrypt_method().id(), "98");
    assert_eq!(tags::heartbt_int().id(), "108");
    assert_eq!(tags::begin_seq_no().id(), "7");
    assert_eq!(tags::end_seq_no().id(), "16");
}

#[test]
fn closed_domains_map_to_their_wire_codes() {
    assert_eq!(Side::buy().value(), '1');
    assert_eq!(Side::cross_short().value(), '9');
    assert_eq!(TimeInForce::day().value(), '0');
    assert_eq!(TimeInForce::good_till_date().value(), '6');
    assert_eq!(IdSource::cusip().value(), '1');
    assert_eq!(IdSource::cta().value(), '9');
    assert_eq!(OrdStatus::new().value(), '0');
    assert_eq!(OrdStatus::accepted_for_bidding().value(), 'D');
}
