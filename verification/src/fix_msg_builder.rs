//! Message encoder: assembles complete outbound wire messages
//! (header + body + trailer) and computes the body-length and checksum
//! fields.

use vstd::prelude::*;
use vstd::string::StringSliceAdditionalSpecFns;
use vstd::string::StringExecFns;
use crate::value_types::FixTag;
use crate::attribute_enums::{EncryptMethod, FixEnum, MsgType};
use crate::tags;

verus! {

/// The wire field separator.
pub open spec fn soh() -> char {
    '\u{1}'
}

/// One rendered field: tag identifier, '=', value, separator.
pub open spec fn fld(tag: Seq<char>, value: Seq<char>) -> Seq<char> {
    tag + seq!['='] + value + seq![soh()]
}

/// The character for one decimal digit.
pub open spec fn digit_char(d: nat) -> char {
    ((48 + d % 10) as u8) as char
}

/// Decimal rendering of a natural number, most significant digit first,
/// without leading zeros (a single zero for 0).
pub open spec fn dec_rep(n: nat) -> Seq<char>
    decreases n,
{
    if n < 10 {
        seq![digit_char(n)]
    } else {
        dec_rep(n / 10).push(digit_char(n % 10))
    }
}

/// Decimal rendering of a signed number: a minus sign before the digits
/// when negative.
pub open spec fn int_rep(v: int) -> Seq<char> {
    if v >= 0 {
        dec_rep(v as nat)
    } else {
        seq!['-'] + dec_rep((-v) as nat)
    }
}

/// Checksum rendering: exactly three zero-padded decimal digits.
pub open spec fn cks_rep(n: nat) -> Seq<char> {
    seq![digit_char(n / 100 % 10), digit_char(n / 10 % 10), digit_char(n % 10)]
}

/// Bytes of a character sequence in its wire (UTF-8) encoding.
pub open spec fn wire_bytes(s: Seq<char>) -> Seq<u8> {
    vstd::utf8::encode_utf8(s)
}

/// The protocol version rendered in the begin-string field.
pub open spec fn version_42() -> Seq<char> {
    seq!['F', 'I', 'X', '.', '4', '.', '2']
}

/// The sender identity used by the fixed-header construction path.
pub open spec fn default_sender() -> Seq<char> {
    seq!['T', 'E', 'S', 'T', '_', 'S', 'E', 'R', 'V', 'E', 'R']
}

/// The target identity used by the fixed-header construction path.
pub open spec fn default_target() -> Seq<char> {
    seq!['T', 'E', 'S', 'T', '_', 'C', 'L', 'I', 'E', 'N', 'T']
}

/// A complete message around the given pre-body: the stored begin-string
/// header (ending in "9="), then the body length in bytes, the pre-body, and
/// the checksum trailer computed over every byte before it.
pub open spec fn framed_with(header_one: Seq<char>, pre_body: Seq<char>) -> Seq<char> {
    let front = header_one + dec_rep(wire_bytes(pre_body).len()) + seq![soh()] + pre_body;
    front + fld(seq!['1', '0'], cks_rep(byte_sum(wire_bytes(front)) % 256))
}

/// The begin-string and body-length header prefix for a protocol version.
pub open spec fn header_one_of(version: Seq<char>) -> Seq<char> {
    fld(seq!['8'], version) + seq!['9', '=']
}

/// A complete message for a protocol version.
pub open spec fn framed(version: Seq<char>, pre_body: Seq<char>) -> Seq<char> {
    framed_with(header_one_of(version), pre_body)
}

/// The mandatory header fields in fixed order: message type, sender id,
/// target id, sequence number, sending time.
pub open spec fn std_header_fields(
    mt: char,
    sender: Seq<char>,
    target: Seq<char>,
    seq_no: nat,
    ts: Seq<char>,
) -> Seq<char> {
    fld(seq!['3', '5'], seq![mt]) + fld(seq!['4', '9'], sender) + fld(seq!['5', '6'], target)
        + fld(seq!['3', '4'], dec_rep(seq_no)) + fld(seq!['5', '2'], ts)
}

/// Heartbeat pre-body: header fields, then the test-request-id when one was
/// given.
pub open spec fn heartbeat_pre(
    sender: Seq<char>,
    target: Seq<char>,
    seq_no: nat,
    ts: Seq<char>,
    trid: Seq<char>,
) -> Seq<char> {
    std_header_fields('0', sender, target, seq_no, ts) + if trid.len() > 0 {
        fld(seq!['1', '1', '2'], trid)
    } else {
        Seq::<char>::empty()
    }
}

/// Logon pre-body: header fields, encryption method, heartbeat interval.
pub open spec fn logon_pre(
    sender: Seq<char>,
    target: Seq<char>,
    seq_no: nat,
    ts: Seq<char>,
    enc: char,
    hb_interval: nat,
) -> Seq<char> {
    std_header_fields('A', sender, target, seq_no, ts) + fld(seq!['9', '8'], seq![enc])
        + fld(seq!['1', '0', '8'], dec_rep(hb_interval))
}

/// Test-request pre-body: header fields, then the test-request-id.
pub open spec fn test_request_pre(
    sender: Seq<char>,
    target: Seq<char>,
    seq_no: nat,
    ts: Seq<char>,
    trid: Seq<char>,
) -> Seq<char> {
    std_header_fields('1', sender, target, seq_no, ts) + fld(seq!['1', '1', '2'], trid)
}

/// Characters a rendered UTC timestamp may consist of: ASCII digits, the
/// separators '-', ':' and '.', and the explicit sign that chrono renders
/// before years outside 0..10000 ('-' for negative years, '+' for years of
/// five or more digits).
pub open spec fn is_timestamp_chars(s: Seq<char>) -> bool {
    forall|i: int|
        0 <= i < s.len() ==> ('0' <= #[trigger] s[i] <= '9' || s[i] == '-' || s[i] == ':'
            || s[i] == '.' || s[i] == '+')
}

/// Sum of a byte sequence, the quantity behind the protocol checksum.
pub open spec fn byte_sum(s: Seq<u8>) -> nat
    decreases s.len(),
{
    if s.len() == 0 {
        0
    } else {
        (byte_sum(s.drop_last()) + s.last()) as nat
    }
}

/// Checksum of all bytes of a message so far: their sum modulo 256.
pub fn generate_check_sum(buf: &str) -> (r: usize)
    ensures
        r == byte_sum(buf.spec_bytes()) % 256,
{
    let b = buf.as_bytes();
    let n = b.len();
    let mut cks: u128 = 0;
    let mut i: usize = 0;
    while i < n
        invariant
            n == b@.len(),
            b@ == buf.spec_bytes(),
            0 <= i <= n,
            cks == byte_sum(b@.take(i as int)),
            cks <= 255 * i,
        decreases n - i,
    {
        let y = b[i] as u128;
        proof {
            assert(b@.take(i + 1).drop_last() =~= b@.take(i as int));
            assert(b@.take(i + 1).last() == b@[i as int]);
        }
        cks = cks + y;
        i = i + 1;
    }
    proof {
        assert(b@.take(n as int) =~= b@);
    }
    (cks % 256) as usize
}

/// Relies on String::push: appends exactly the one character.
#[verifier::external_body]
fn push_char(buf: &mut String, c: char)
    ensures
        final(buf)@ == old(buf)@ + seq![c],
{
    buf.push(c);
}

/// A one-character string for a decimal digit.
fn digit_str(d: u8) -> (r: &'static str)
    requires
        d < 10,
    ensures
        r@ =~= seq![digit_char(d as nat)],
{
    proof {
        reveal_strlit("0");
        reveal_strlit("1");
        reveal_strlit("2");
        reveal_strlit("3");
        reveal_strlit("4");
        reveal_strlit("5");
        reveal_strlit("6");
        reveal_strlit("7");
        reveal_strlit("8");
        reveal_strlit("9");
    }
    match d {
        0 => "0",
        1 => "1",
        2 => "2",
        3 => "3",
        4 => "4",
        5 => "5",
        6 => "6",
        7 => "7",
        8 => "8",
        _ => "9",
    }
}

/// Decimal rendering of an unsigned number.
fn u64_to_dec(n: u64) -> (s: String)
    ensures
        s@ == dec_rep(n as nat),
    decreases n,
{
    if n < 10 {
        let s = String::from_str(digit_str(n as u8));
        proof {
            assert(s@ =~= dec_rep(n as nat));
        }
        s
    } else {
        let mut s = u64_to_dec(n / 10);
        s.append(digit_str((n % 10) as u8));
        proof {
            assert(s@ =~= dec_rep(n as nat));
        }
        s
    }
}

/// The field separator as a string.
fn soh_str() -> (r: &'static str)
    ensures
        r@ =~= seq![soh()],
{
    proof {
        reveal_strlit("\u{1}");
    }
    "\u{1}"
}

/// The '=' between tag and value, as a string.
fn eq_str() -> (r: &'static str)
    ensures
        r@ =~= seq!['='],
{
    proof {
        reveal_strlit("=");
    }
    "="
}

pub fn add_string_field(buf: &mut String, tag: &FixTag, value: &str)
    ensures
        final(buf)@ == old(buf)@ + fld(tag.spec_id(), value@),
{
    buf.append(tag.id());
    buf.append(eq_str());
    buf.append(value);
    buf.append(soh_str());
    proof {
        assert(buf@ =~= old(buf)@ + fld(tag.spec_id(), value@));
    }
}

pub fn add_char_field(buf: &mut String, tag: &FixTag, value: char)
    ensures
        final(buf)@ == old(buf)@ + fld(tag.spec_id(), seq![value]),
{
    buf.append(tag.id());
    buf.append(eq_str());
    push_char(buf, value);
    buf.append(soh_str());
    proof {
        assert(buf@ =~= old(buf)@ + fld(tag.spec_id(), seq![value]));
    }
}

pub fn add_u64_field(buf: &mut String, tag: &FixTag, value: u64)
    ensures
        final(buf)@ == old(buf)@ + fld(tag.spec_id(), dec_rep(value as nat)),
{
    buf.append(tag.id());
    buf.append(eq_str());
    let d = u64_to_dec(value);
    buf.append(d.as_str());
    buf.append(soh_str());
    proof {
        assert(buf@ =~= old(buf)@ + fld(tag.spec_id(), dec_rep(value as nat)));
    }
}

pub fn add_unsigned_field(buf: &mut String, tag: &FixTag, value: usize)
    ensures
        final(buf)@ == old(buf)@ + fld(tag.spec_id(), dec_rep(value as nat)),
{
    add_u64_field(buf, tag, value as u64);
}

pub fn add_seqnum_field(buf: &mut String, tag: &FixTag, seq_num: i32)
    requires
        seq_num >= 0,
    ensures
        final(buf)@ == old(buf)@ + fld(tag.spec_id(), dec_rep(seq_num as nat)),
{
    add_u64_field(buf, tag, seq_num as u64);
}

pub fn add_int_field(buf: &mut String, tag: &FixTag, value: i32)
    ensures
        final(buf)@ == old(buf)@ + fld(tag.spec_id(), int_rep(value as int)),
{
    buf.append(tag.id());
    buf.append(eq_str());
    if value >= 0 {
        let d = u64_to_dec(value as u64);
        buf.append(d.as_str());
    } else {
        proof {
            reveal_strlit("-");
        }
        buf.append("-");
        let m = -(value as i64);
        let d = u64_to_dec(m as u64);
        buf.append(d.as_str());
    }
    buf.append(soh_str());
    proof {
        assert(buf@ =~= old(buf)@ + fld(tag.spec_id(), int_rep(value as int)));
    }
}

pub fn add_checksum_field(buf: &mut String, tag: &FixTag, cksum: usize)
    requires
        cksum < 256,
    ensures
        final(buf)@ == old(buf)@ + fld(tag.spec_id(), cks_rep(cksum as nat)),
{
    buf.append(tag.id());
    buf.append(eq_str());
    buf.append(digit_str((cksum / 100 % 10) as u8));
    buf.append(digit_str((cksum / 10 % 10) as u8));
    buf.append(digit_str((cksum % 10) as u8));
    buf.append(soh_str());
    proof {
        assert(buf@ =~= old(buf)@ + fld(tag.spec_id(), cks_rep(cksum as nat)));
    }
}

/// Relies on chrono's `Utc::now` and `DateTime::format` with the
/// `%Y%m%d-%H:%M:%S%.3f` specifier: whatever instant the clock reports, the
/// rendered text consists only of ASCII digits, the separators '-', ':' and
/// '.', and the sign chrono writes before years outside 0..10000 ('+' from
/// the year 10000 on, '-' for negative years). Deliberately inherits
/// chrono's panic on a clock chrono cannot represent (before the Unix epoch
/// or past its maximum year), as the surrounding program always did.
#[verifier::external_body]
pub fn utc_timestamp() -> (r: String)
    ensures
        is_timestamp_chars(r@),
{
    chrono::offset::Utc::now().format("%Y%m%d-%H:%M:%S%.3f").to_string()
}

/// Relies on chrono's `Utc::now` and `DateTime::format` with the compact
/// `%Y%m%d%H%M%S%3f` specifier: whatever instant the clock reports, the
/// rendered text consists only of ASCII digits and the sign chrono writes
/// before years outside 0..10000 ('+' from the year 10000 on, '-' for
/// negative years). Deliberately inherits chrono's panic on a clock chrono
/// cannot represent (before the Unix epoch or past its maximum year), as
/// the surrounding program always did.
#[verifier::external_body]
pub fn utc_timestamp_compact() -> (r: String)
    ensures
        is_timestamp_chars(r@),
{
    chrono::offset::Utc::now().format("%Y%m%d%H%M%S%3f").to_string()
}

/// Appends the checksum trailer field, computed over every byte already in
/// the buffer.
fn create_fix_trailer(buf: &mut String)
    ensures
        final(buf)@ == old(buf)@ + fld(
            seq!['1', '0'],
            cks_rep(byte_sum(wire_bytes(old(buf)@)) % 256),
        ),
{
    let cks = generate_check_sum(buf.as_str());
    let t = tags::check_sum();
    add_checksum_field(buf, &t, cks);
}

/// Wraps a finished pre-body into a complete message: begin-string header,
/// body length, pre-body, checksum trailer. The checksum covers only the
/// message being built, never bytes already in `buf`.
fn frame_message(buf: &mut String, pre_body: &String)
    ensures
        final(buf)@ == old(buf)@ + framed(version_42(), pre_body@),
{
    let mut msg = String::new();
    proof {
        reveal_strlit("FIX.4.2");
        assert("FIX.4.2"@ =~= version_42());
    }
    let t8 = tags::begin_string();
    add_string_field(&mut msg, &t8, "FIX.4.2");
    let t9 = tags::body_length();
    let blen = pre_body.as_str().as_bytes().len();
    proof {
        assert(blen == wire_bytes(pre_body@).len());
    }
    add_unsigned_field(&mut msg, &t9, blen);
    msg.append(pre_body.as_str());
    proof {
        assert(msg@ =~= header_one_of(version_42()) + dec_rep(wire_bytes(pre_body@).len())
            + seq![soh()] + pre_body@);
    }
    create_fix_trailer(&mut msg);
    buf.append(msg.as_str());
    proof {
        assert(buf@ =~= old(buf)@ + framed(version_42(), pre_body@));
    }
}

/// Appends the fixed-order header fields for the fixed-identity path.
fn create_fix_std_header(tmp: &mut String, seq_no: i32, msg_type: MsgType, sending_time: &str)
    requires
        seq_no >= 0,
    ensures
        final(tmp)@ == old(tmp)@ + std_header_fields(
            msg_type.spec_value(),
            default_sender(),
            default_target(),
            seq_no as nat,
            sending_time@,
        ),
{
    proof {
        reveal_strlit("TEST_SERVER");
        reveal_strlit("TEST_CLIENT");
    }
    let t35 = tags::msg_type();
    add_char_field(tmp, &t35, msg_type.value());
    let t49 = tags::sender_comp_id();
    add_string_field(tmp, &t49, "TEST_SERVER");
    let t56 = tags::target_comp_id();
    add_string_field(tmp, &t56, "TEST_CLIENT");
    let t34 = tags::msg_seq_no();
    add_seqnum_field(tmp, &t34, seq_no);
    let t52 = tags::sending_time();
    add_string_field(tmp, &t52, sending_time);
    proof {
        assert("TEST_SERVER"@ =~= default_sender());
        assert("TEST_CLIENT"@ =~= default_target());
        assert(tmp@ =~= old(tmp)@ + std_header_fields(
            msg_type.spec_value(),
            default_sender(),
            default_target(),
            seq_no as nat,
            sending_time@,
        ));
    }
}

/// Builds a complete heartbeat message with the given sending time and
/// appends it to `buf`.
pub fn build_fix_heartbeat(
    buf: &mut String,
    seq_no: i32,
    test_request_id: &str,
    sending_time: &str,
)
    requires
        seq_no >= 0,
    ensures
        final(buf)@ == old(buf)@ + framed(
            version_42(),
            heartbeat_pre(
                default_sender(),
                default_target(),
                seq_no as nat,
                sending_time@,
                test_request_id@,
            ),
        ),
{
    let mut tmp = String::new();
    create_fix_std_header(&mut tmp, seq_no, MsgType::HeartBeat, sending_time);
    if !test_request_id.is_empty() {
        let t112 = tags::test_req_id();
        add_string_field(&mut tmp, &t112, test_request_id);
    }
    proof {
        assert(tmp@ =~= heartbeat_pre(
            default_sender(),
            default_target(),
            seq_no as nat,
            sending_time@,
            test_request_id@,
        ));
    }
    frame_message(buf, &tmp);
}

/// Holds when `new_s` extends `old_s` with exactly one complete heartbeat
/// carrying the given sequence number and test-request-id, sent at some
/// instant rendered as `ts`.
pub open spec fn appended_heartbeat(
    old_s: Seq<char>,
    new_s: Seq<char>,
    seq_no: nat,
    trid: Seq<char>,
    ts: Seq<char>,
) -> bool {
    is_timestamp_chars(ts) && new_s == old_s + framed(
        version_42(),
        heartbeat_pre(default_sender(), default_target(), seq_no, ts, trid),
    )
}

/// Builds a complete heartbeat message stamped with the current UTC time and
/// appends it to `buf`.
pub fn create_fix_heartbeat(buf: &mut String, seq_no: i32, test_request_id: &str)
    requires
        seq_no >= 0,
    ensures
        exists|ts: Seq<char>|
            #[trigger] appended_heartbeat(old(buf)@, final(buf)@, seq_no as nat, test_request_id@, ts),
{
    let now = utc_timestamp();
    build_fix_heartbeat(buf, seq_no, test_request_id, now.as_str());
    proof {
        assert(appended_heartbeat(old(buf)@, buf@, seq_no as nat, test_request_id@, now@));
    }
}

/// Builds a complete logon message with the given sending time and appends
/// it to `buf`.
pub fn build_fix_logon(
    buf: &mut String,
    seq_no: i32,
    hb_interval: u64,
    encryption_method: EncryptMethod,
    sending_time: &str,
)
    requires
        seq_no >= 0,
    ensures
        final(buf)@ == old(buf)@ + framed(
            version_42(),
            logon_pre(
                default_sender(),
                default_target(),
                seq_no as nat,
                sending_time@,
                encryption_method.spec_value(),
                hb_interval as nat,
            ),
        ),
{
    let mut tmp = String::new();
    create_fix_std_header(&mut tmp, seq_no, MsgType::Logon, sending_time);
    let t98 = tags::encrypt_method();
    add_char_field(&mut tmp, &t98, encryption_method.value());
    let t108 = tags::heartbt_int();
    add_u64_field(&mut tmp, &t108, hb_interval);
    proof {
        assert(tmp@ =~= logon_pre(
            default_sender(),
            default_target(),
            seq_no as nat,
            sending_time@,
            encryption_method.spec_value(),
            hb_interval as nat,
        ));
    }
    frame_message(buf, &tmp);
}

/// Holds when `new_s` extends `old_s` with exactly one complete logon
/// carrying the given sequence number, heartbeat interval and encryption
/// method, sent at some instant rendered as `ts`.
pub open spec fn appended_logon(
    old_s: Seq<char>,
    new_s: Seq<char>,
    seq_no: nat,
    hb_interval: nat,
    enc: char,
    ts: Seq<char>,
) -> bool {
    is_timestamp_chars(ts) && new_s == old_s + framed(
        version_42(),
        logon_pre(default_sender(), default_target(), seq_no, ts, enc, hb_interval),
    )
}

/// Builds a complete logon message stamped with the current UTC time and
/// appends it to `buf`.
pub fn create_fix_logon(
    buf: &mut String,
    seq_no: i32,
    hb_interval: u64,
    encryption_method: EncryptMethod,
)
    requires
        seq_no >= 0,
    ensures
        exists|ts: Seq<char>|
            #[trigger] appended_logon(
                old(buf)@,
                final(buf)@,
                seq_no as nat,
                hb_interval as nat,
                encryption_method.spec_value(),
                ts,
            ),
{
    let ghost enc = encryption_method.spec_value();
    let now = utc_timestamp();
    build_fix_logon(buf, seq_no, hb_interval, encryption_method, now.as_str());
    proof {
        assert(appended_logon(old(buf)@, buf@, seq_no as nat, hb_interval as nat, enc, now@));
    }
}

/// Builds a complete test-request message with the given correlation id and
/// sending time and appends it to `buf`.
pub fn build_fix_test_request(
    buf: &mut String,
    seq_no: i32,
    test_request_id: &str,
    sending_time: &str,
)
    requires
        seq_no >= 0,
    ensures
        final(buf)@ == old(buf)@ + framed(
            version_42(),
            test_request_pre(
                default_sender(),
                default_target(),
                seq_no as nat,
                sending_time@,
                test_request_id@,
            ),
        ),
{
    let mut tmp = String::new();
    create_fix_std_header(&mut tmp, seq_no, MsgType::TestRequest, sending_time);
    let t112 = tags::test_req_id();
    add_string_field(&mut tmp, &t112, test_request_id);
    proof {
        assert(tmp@ =~= test_request_pre(
            default_sender(),
            default_target(),
            seq_no as nat,
            sending_time@,
            test_request_id@,
        ));
    }
    frame_message(buf, &tmp);
}

/// Holds when `new_s` extends `old_s` with exactly one complete test request
/// whose correlation id is a rendered instant.
pub open spec fn appended_test_request(
    old_s: Seq<char>,
    new_s: Seq<char>,
    seq_no: nat,
    trid: Seq<char>,
    ts: Seq<char>,
) -> bool {
    is_timestamp_chars(ts) && is_timestamp_chars(trid) && new_s == old_s + framed(
        version_42(),
        test_request_pre(default_sender(), default_target(), seq_no, ts, trid),
    )
}

/// Session header templates derived once from configuration: the
/// begin-string prefix up to "9=", and the sender/target identity block.
pub struct SessionHeader {
    header_one: String,
    header_one_len: usize,
    header_two: String,
    header_two_len: usize,
}

impl SessionHeader {
    /// The begin-string and body-length prefix, ending in "9=".
    pub closed spec fn spec_header_one(&self) -> Seq<char> {
        self.header_one@
    }

    /// The sender/target identity block, starting with a separator.
    pub closed spec fn spec_header_two(&self) -> Seq<char> {
        self.header_two@
    }

    pub fn new(fix_version: &str, sender_comp_id: &str, target_comp_id: &str) -> (h: SessionHeader)
        ensures
            h.spec_header_one() == fix_version@ + seq![soh(), '9', '='],
            h.spec_header_two() == seq![soh(), '4', '9', '='] + sender_comp_id@
                + seq![soh(), '5', '6', '='] + target_comp_id@,
    {
        let mut header_one = String::new();
        header_one.append(fix_version);
        proof {
            reveal_strlit("\u{1}9=");
        }
        header_one.append("\u{1}9=");
        let header_one_len = header_one.as_str().as_bytes().len();
        let mut header_two = String::new();
        proof {
            reveal_strlit("\u{1}49=");
            reveal_strlit("\u{1}56=");
        }
        header_two.append("\u{1}49=");
        header_two.append(sender_comp_id);
        header_two.append("\u{1}56=");
        header_two.append(target_comp_id);
        let header_two_len = header_two.as_str().as_bytes().len();
        let h = SessionHeader { header_one, header_one_len, header_two, header_two_len };
        proof {
            assert(h.spec_header_one() =~= fix_version@ + seq![soh(), '9', '=']);
            assert(h.spec_header_two() =~= seq![soh(), '4', '9', '='] + sender_comp_id@
                + seq![soh(), '5', '6', '='] + target_comp_id@);
        }
        h
    }
}

/// Pre-body built around a stored identity block: message type, the block,
/// sequence number, sending time.
pub open spec fn pre_body_with(
    header_two: Seq<char>,
    mt: char,
    seq_no: nat,
    ts: Seq<char>,
) -> Seq<char> {
    seq!['3', '5', '=', mt] + header_two + seq![soh(), '3', '4', '='] + dec_rep(seq_no)
        + seq![soh(), '5', '2', '='] + ts + seq![soh()]
}

/// Heartbeat pre-body around a stored identity block.
pub open spec fn heartbeat_pre_with(
    header_two: Seq<char>,
    seq_no: nat,
    ts: Seq<char>,
    trid: Seq<char>,
) -> Seq<char> {
    pre_body_with(header_two, '0', seq_no, ts) + if trid.len() > 0 {
        fld(seq!['1', '1', '2'], trid)
    } else {
        Seq::<char>::empty()
    }
}

/// Appends the message-type through sending-time fields, reusing the stored
/// identity block.
fn new_create_fix_pre_body(
    buf: &mut String,
    header_two: &str,
    seq_no: &i32,
    msg_type: MsgType,
    sending_time: &str,
)
    requires
        *seq_no >= 0,
    ensures
        final(buf)@ == old(buf)@ + pre_body_with(
            header_two@,
            msg_type.spec_value(),
            *seq_no as nat,
            sending_time@,
        ),
{
    proof {
        reveal_strlit("35=");
        reveal_strlit("\u{1}34=");
        reveal_strlit("\u{1}52=");
    }
    buf.append("35=");
    push_char(buf, msg_type.value());
    buf.append(header_two);
    buf.append("\u{1}34=");
    let d = u64_to_dec(*seq_no as u64);
    buf.append(d.as_str());
    buf.append("\u{1}52=");
    buf.append(sending_time);
    buf.append(soh_str());
    proof {
        assert(buf@ =~= old(buf)@ + pre_body_with(
            header_two@,
            msg_type.spec_value(),
            *seq_no as nat,
            sending_time@,
        ));
    }
}

/// Appends the stored begin-string prefix, the body length of the finished
/// pre-body, and the pre-body itself.
fn new_create_fix_header(buf: &mut String, header_one: &String, pre_body: &str)
    ensures
        final(buf)@ == old(buf)@ + header_one@ + dec_rep(wire_bytes(pre_body@).len())
            + seq![soh()] + pre_body@,
{
    buf.append(header_one.as_str());
    let blen = pre_body.as_bytes().len();
    proof {
        assert(blen == wire_bytes(pre_body@).len());
    }
    let d = u64_to_dec(blen as u64);
    buf.append(d.as_str());
    buf.append(soh_str());
    buf.append(pre_body);
    proof {
        assert(buf@ =~= old(buf)@ + header_one@ + dec_rep(wire_bytes(pre_body@).len())
            + seq![soh()] + pre_body@);
    }
}

/// Builds a complete heartbeat around the stored session header, with the
/// given sending time, and appends it to `buf`.
pub fn new_build_fix_heartbeat(
    buf: &mut String,
    hdr: &SessionHeader,
    seq_no: i32,
    test_request_id: &str,
    sending_time: &str,
)
    requires
        seq_no >= 0,
    ensures
        final(buf)@ == old(buf)@ + framed_with(
            hdr.spec_header_one(),
            heartbeat_pre_with(
                hdr.spec_header_two(),
                seq_no as nat,
                sending_time@,
                test_request_id@,
            ),
        ),
{
    let mut pre = String::new();
    new_create_fix_pre_body(&mut pre, hdr.header_two.as_str(), &seq_no, MsgType::HeartBeat,
        sending_time);
    if !test_request_id.is_empty() {
        let t112 = tags::test_req_id();
        add_string_field(&mut pre, &t112, test_request_id);
    }
    proof {
        assert(pre@ =~= heartbeat_pre_with(
            hdr.spec_header_two(),
            seq_no as nat,
            sending_time@,
            test_request_id@,
        ));
    }
    let mut msg = String::new();
    new_create_fix_header(&mut msg, &hdr.header_one, pre.as_str());
    create_fix_trailer(&mut msg);
    buf.append(msg.as_str());
    proof {
        assert(buf@ =~= old(buf)@ + framed_with(
            hdr.spec_header_one(),
            heartbeat_pre_with(
                hdr.spec_header_two(),
                seq_no as nat,
                sending_time@,
                test_request_id@,
            ),
        ));
    }
}

/// Holds when `new_s` extends `old_s` with exactly one complete heartbeat
/// built around the given session header at some instant rendered as `ts`.
pub open spec fn appended_heartbeat_with(
    header_one: Seq<char>,
    header_two: Seq<char>,
    old_s: Seq<char>,
    new_s: Seq<char>,
    seq_no: nat,
    trid: Seq<char>,
    ts: Seq<char>,
) -> bool {
    is_timestamp_chars(ts) && new_s == old_s + framed_with(
        header_one,
        heartbeat_pre_with(header_two, seq_no, ts, trid),
    )
}

/// Builds a complete heartbeat around the stored session header, stamped
/// with the current UTC time, and appends it to `buf`.
pub fn new_create_fix_heartbeat(
    buf: &mut String,
    hdr: &SessionHeader,
    seq_no: i32,
    test_request_id: &str,
)
    requires
        seq_no >= 0,
    ensures
        exists|ts: Seq<char>|
            #[trigger] appended_heartbeat_with(
                hdr.spec_header_one(),
                hdr.spec_header_two(),
                old(buf)@,
                final(buf)@,
                seq_no as nat,
                test_request_id@,
                ts,
            ),
{
    let now = utc_timestamp();
    new_build_fix_heartbeat(buf, hdr, seq_no, test_request_id, now.as_str());
    proof {
        assert(appended_heartbeat_with(
            hdr.spec_header_one(),
            hdr.spec_header_two(),
            old(buf)@,
            buf@,
            seq_no as nat,
            test_request_id@,
            now@,
        ));
    }
}

/// Builds a complete test-request message stamped with the current UTC time,
/// carrying a fresh time-derived correlation id, and appends it to `buf`.
pub fn create_fix_test_request(buf: &mut String, seq_no: i32)
    requires
        seq_no >= 0,
    ensures
        exists|trid: Seq<char>, ts: Seq<char>|
            #[trigger] appended_test_request(old(buf)@, final(buf)@, seq_no as nat, trid, ts),
{
    let trid = utc_timestamp_compact();
    let now = utc_timestamp();
    build_fix_test_request(buf, seq_no, trid.as_str(), now.as_str());
    proof {
        assert(appended_test_request(old(buf)@, buf@, seq_no as nat, trid@, now@));
    }
}


/// The byte of each character of an ASCII sequence, in order.
pub open spec fn ascii_bytes(s: Seq<char>) -> Seq<u8> {
    Seq::new(s.len(), |i: int| s[i] as u8)
}

/// For ASCII text the wire bytes are the character codes, one byte each.
pub proof fn lemma_wire_bytes_ascii(s: Seq<char>)
    requires
        vstd::utf8::is_ascii_chars(s),
    ensures
        wire_bytes(s) == ascii_bytes(s),
        wire_bytes(s).len() == s.len(),
{
    vstd::utf8::is_ascii_chars_encode_utf8(s);
    assert(wire_bytes(s) =~= ascii_bytes(s));
}

/// Decimal renderings consist of digits alone, at least one.
pub proof fn lemma_dec_rep_digits(n: nat)
    ensures
        dec_rep(n).len() >= 1,
        forall|i: int| 0 <= i < dec_rep(n).len() ==> '0' <= #[trigger] dec_rep(n)[i] <= '9',
    decreases n,
{
    if n >= 10 {
        lemma_dec_rep_digits(n / 10);
    }
}

/// A decimal rendering read back as digit bytes denotes the number itself.
pub proof fn lemma_dec_rep_val(n: nat)
    ensures
        crate::fix_decoder::digits_val(ascii_bytes(dec_rep(n))) == n,
    decreases n,
{
    lemma_dec_rep_digits(n);
    assert(digit_char(n) as u8 == 48 + n % 10);
    if n < 10 {
        assert(ascii_bytes(dec_rep(n)) =~= seq![digit_char(n) as u8]);
        let b = seq![digit_char(n) as u8];
        assert(b.drop_last() =~= Seq::<u8>::empty());
        assert(crate::fix_decoder::digits_val(Seq::<u8>::empty()) == 0);
        assert(crate::fix_decoder::digits_val(b) == (crate::fix_decoder::digits_val(
            b.drop_last(),
        ) * 10 + (b.last() - 48)) as nat);
        assert(crate::fix_decoder::digits_val(b) == n);
    } else {
        lemma_dec_rep_val(n / 10);
        assert(ascii_bytes(dec_rep(n)) =~= ascii_bytes(dec_rep(n / 10)).push(
            digit_char(n % 10) as u8,
        ));
        assert(ascii_bytes(dec_rep(n)).drop_last() =~= ascii_bytes(dec_rep(n / 10)));
    }
}

/// The checksum field value is rendered as exactly three zero-padded decimal
/// digits, and for any checksum (always below 256, so below 1000) those
/// three digits denote the value itself.
pub proof fn lemma_checksum_rendering(n: nat)
    ensures
        cks_rep(n).len() == 3,
        forall|i: int| 0 <= i < 3 ==> '0' <= #[trigger] cks_rep(n)[i] <= '9',
        n < 1000 ==> crate::fix_decoder::digits_val(ascii_bytes(cks_rep(n))) == n,
{
    assert(cks_rep(n)[0] == digit_char(n / 100 % 10));
    assert(cks_rep(n)[1] == digit_char(n / 10 % 10));
    assert(cks_rep(n)[2] == digit_char(n % 10));
    if n < 1000 {
        let b = ascii_bytes(cks_rep(n));
        assert(b.len() == 3);
        assert(digit_char(n / 100 % 10) as u8 == 48 + n / 100 % 10);
        assert(digit_char(n / 10 % 10) as u8 == 48 + n / 10 % 10);
        assert(digit_char(n % 10) as u8 == 48 + n % 10);
        assert(b.drop_last() =~= seq![cks_rep(n)[0] as u8, cks_rep(n)[1] as u8]);
        assert(b.drop_last().drop_last() =~= seq![cks_rep(n)[0] as u8]);
        assert(b.drop_last().drop_last().drop_last() =~= Seq::<u8>::empty());
        assert(crate::fix_decoder::digits_val(Seq::<u8>::empty()) == 0);
        assert(crate::fix_decoder::digits_val(b.drop_last().drop_last()) == n / 100 % 10);
        assert(crate::fix_decoder::digits_val(b.drop_last()) == (n / 100 % 10) * 10 + n / 10
            % 10);
        assert(crate::fix_decoder::digits_val(b) == ((n / 100 % 10) * 10 + n / 10 % 10) * 10 + n
            % 10);
        assert(((n / 100 % 10) * 10 + n / 10 % 10) * 10 + n % 10 == n) by (nonlinear_arith)
            requires
                n < 1000,
        ;
    }
}

/// Timestamp text is ASCII.
pub proof fn lemma_timestamp_ascii(s: Seq<char>)
    requires
        is_timestamp_chars(s),
    ensures
        vstd::utf8::is_ascii_chars(s),
{
}


/// ASCII is preserved by concatenation.
pub proof fn lemma_ascii_concat2(a: Seq<char>, b: Seq<char>)
    requires
        vstd::utf8::is_ascii_chars(a),
        vstd::utf8::is_ascii_chars(b),
    ensures
        vstd::utf8::is_ascii_chars(a + b),
{
    assert forall|i: int| 0 <= i < (a + b).len() implies '\0' <= #[trigger] (a + b)[i]
        <= '\u{7f}' by {
        if i < a.len() {
            assert((a + b)[i] == a[i]);
        } else {
            assert((a + b)[i] == b[i - a.len()]);
        }
    }
}

/// A rendered field of ASCII tag and value is ASCII, and four bytes longer
/// than the two of them.
pub proof fn lemma_fld_ascii(tag: Seq<char>, value: Seq<char>)
    requires
        vstd::utf8::is_ascii_chars(tag),
        vstd::utf8::is_ascii_chars(value),
    ensures
        vstd::utf8::is_ascii_chars(fld(tag, value)),
        fld(tag, value).len() == tag.len() + value.len() + 2,
{
    assert(vstd::utf8::is_ascii_chars(seq!['=']));
    assert(vstd::utf8::is_ascii_chars(seq![soh()]));
    lemma_ascii_concat2(tag, seq!['=']);
    lemma_ascii_concat2(tag + seq!['='], value);
    lemma_ascii_concat2(tag + seq!['='] + value, seq![soh()]);
}

/// Digit-only text is ASCII.
pub proof fn lemma_digits_ascii(s: Seq<char>)
    requires
        forall|i: int| 0 <= i < s.len() ==> '0' <= #[trigger] s[i] <= '9',
    ensures
        vstd::utf8::is_ascii_chars(s),
{
}

/// The mandatory header-field block with the fixed identities is ASCII and
/// at least 44 characters long.
pub proof fn lemma_std_header_fields_ascii(mt: char, seq_no: nat, ts: Seq<char>)
    requires
        '\0' <= mt <= '\u{7f}',
        vstd::utf8::is_ascii_chars(ts),
    ensures
        vstd::utf8::is_ascii_chars(std_header_fields(mt, default_sender(), default_target(), seq_no, ts)),
        std_header_fields(mt, default_sender(), default_target(), seq_no, ts).len() >= 44,
{
    lemma_dec_rep_digits(seq_no);
    lemma_digits_ascii(dec_rep(seq_no));
    assert(vstd::utf8::is_ascii_chars(seq![mt]));
    assert(vstd::utf8::is_ascii_chars(seq!['3', '5']));
    assert(vstd::utf8::is_ascii_chars(seq!['4', '9']));
    assert(vstd::utf8::is_ascii_chars(seq!['5', '6']));
    assert(vstd::utf8::is_ascii_chars(seq!['3', '4']));
    assert(vstd::utf8::is_ascii_chars(seq!['5', '2']));
    assert(vstd::utf8::is_ascii_chars(default_sender()));
    assert(vstd::utf8::is_ascii_chars(default_target()));
    lemma_fld_ascii(seq!['3', '5'], seq![mt]);
    lemma_fld_ascii(seq!['4', '9'], default_sender());
    lemma_fld_ascii(seq!['5', '6'], default_target());
    lemma_fld_ascii(seq!['3', '4'], dec_rep(seq_no));
    lemma_fld_ascii(seq!['5', '2'], ts);
    let f1 = fld(seq!['3', '5'], seq![mt]);
    let f2 = fld(seq!['4', '9'], default_sender());
    let f3 = fld(seq!['5', '6'], default_target());
    let f4 = fld(seq!['3', '4'], dec_rep(seq_no));
    let f5 = fld(seq!['5', '2'], ts);
    lemma_ascii_concat2(f1, f2);
    lemma_ascii_concat2(f1 + f2, f3);
    lemma_ascii_concat2(f1 + f2 + f3, f4);
    lemma_ascii_concat2(f1 + f2 + f3 + f4, f5);
}

} // verus!
