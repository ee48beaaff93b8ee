//! Frame decoder: extracts one complete, checksum-plausible message at a
//! time from the byte buffer accumulated off the transport, or reports that
//! more bytes are needed.

use vstd::prelude::*;
use vstd::string::StrSliceExecFns;
use vstd::string::StringSliceAdditionalSpecFns;

verus! {

/// The wire field separator as a byte.
pub open spec fn soh_byte() -> u8 {
    1
}

/// An ASCII decimal digit.
pub open spec fn is_digit_byte(b: u8) -> bool {
    48 <= b <= 57
}

/// ASCII lower-casing of one byte.
pub open spec fn lower_byte(b: u8) -> u8 {
    if 65 <= b <= 90 {
        (b + 32) as u8
    } else {
        b
    }
}

/// The buffer begins with the header template, compared byte by byte,
/// case-insensitively on ASCII letters.
pub open spec fn prefix_matches_ci(h: Seq<u8>, b: Seq<u8>) -> bool {
    h.len() <= b.len() && forall|i: int|
        0 <= i < h.len() ==> lower_byte(#[trigger] b[i]) == lower_byte(h[i])
}

/// The first position at or after `i` holding a non-digit, or the buffer
/// length when only digits remain.
pub open spec fn scan_end(b: Seq<u8>, i: int) -> int
    decreases b.len() - i,
{
    if i < 0 || i >= b.len() {
        b.len() as int
    } else if !is_digit_byte(b[i]) {
        i
    } else {
        scan_end(b, i + 1)
    }
}

/// The number denoted by a run of ASCII digits, most significant first.
pub open spec fn digits_val(s: Seq<u8>) -> nat
    decreases s.len(),
{
    if s.len() == 0 {
        0
    } else {
        (digits_val(s.drop_last()) * 10 + (s.last() - 48)) as nat
    }
}

/// What one decode attempt over a buffer yields.
pub enum SpecDecodeResult {
    /// Not enough bytes yet, or the prefix does not (yet) match.
    Incomplete,
    /// A non-digit stood in the body-length field before its separator.
    BadLength,
    /// A non-digit stood in the checksum field of a complete message.
    BadChecksum,
    /// A complete message occupies the first `end` bytes of the buffer.
    Frame(int),
}

/// The decode algorithm as a function of the header template and the buffer
/// bytes: minimum-size gate, case-insensitive prefix match, body-length scan,
/// total-length arithmetic, checksum-digit plausibility.
pub open spec fn decode_spec(h: Seq<u8>, b: Seq<u8>) -> SpecDecodeResult {
    if b.len() < 63 {
        SpecDecodeResult::Incomplete
    } else if !prefix_matches_ci(h, b) {
        SpecDecodeResult::Incomplete
    } else {
        let j = scan_end(b, h.len() as int);
        if j == b.len() {
            SpecDecodeResult::Incomplete
        } else if b[j] != soh_byte() {
            SpecDecodeResult::BadLength
        } else {
            let v = digits_val(b.subrange(h.len() as int, j));
            let total = j + 8 + v;
            if b.len() < total {
                SpecDecodeResult::Incomplete
            } else if is_digit_byte(b[total - 4]) && is_digit_byte(b[total - 3])
                && is_digit_byte(b[total - 2]) {
                SpecDecodeResult::Frame(total)
            } else {
                SpecDecodeResult::BadChecksum
            }
        }
    }
}

proof fn lemma_scan_end_props(b: Seq<u8>, i: int)
    requires
        0 <= i <= b.len(),
    ensures
        i <= scan_end(b, i) <= b.len(),
        forall|k: int| i <= k < scan_end(b, i) ==> is_digit_byte(#[trigger] b[k]),
        scan_end(b, i) < b.len() ==> !is_digit_byte(b[scan_end(b, i)]),
    decreases b.len() - i,
{
    if i < b.len() && is_digit_byte(b[i]) {
        lemma_scan_end_props(b, i + 1);
    }
}

proof fn lemma_scan_end_unique(b: Seq<u8>, i: int, m: int)
    requires
        0 <= i <= m <= b.len(),
        forall|k: int| i <= k < m ==> is_digit_byte(#[trigger] b[k]),
        m == b.len() || !is_digit_byte(b[m]),
    ensures
        scan_end(b, i) == m,
    decreases m - i,
{
    if i < m {
        lemma_scan_end_unique(b, i + 1, m);
    }
}

/// Framing faults that poison the byte stream.
#[derive(Clone, Copy, PartialEq, Eq, Structural, Debug)]
pub enum FramingError {
    /// A non-digit stood in the body-length field before its separator.
    MalformedLength,
    /// A non-digit stood in the checksum field of a complete message.
    MalformedChecksum,
}

/// Declares bytes::BytesMut, the transport's growable byte buffer, as an
/// opaque outside type.
#[verifier::external_type_specification]
#[verifier::external_body]
pub struct ExBytesMut(bytes::BytesMut);

/// What a transport buffer holds.
pub uninterp spec fn bm_bytes(b: bytes::BytesMut) -> Seq<u8>;

/// Relies on bytes::BytesMut::len: the byte count of the contents.
#[verifier::external_body]
fn bm_len(b: &bytes::BytesMut) -> (n: usize)
    ensures
        n == bm_bytes(*b).len(),
{
    b.len()
}

/// Relies on bytes::BytesMut's Deref to `[u8]`: reads one byte of the
/// contents.
#[verifier::external_body]
fn bm_get(b: &bytes::BytesMut, i: usize) -> (x: u8)
    requires
        i < bm_bytes(*b).len(),
    ensures
        x == bm_bytes(*b)[i as int],
{
    b[i]
}

/// Relies on bytes::BytesMut's Deref to `[u8]`: copies the first `n` bytes
/// of the contents out into an owned vector.
#[verifier::external_body]
fn bm_prefix(b: &bytes::BytesMut, n: usize) -> (v: Vec<u8>)
    requires
        n <= bm_bytes(*b).len(),
    ensures
        v@ == bm_bytes(*b).subrange(0, n as int),
{
    b[..n].to_vec()
}

/// What String::from_utf8_lossy returns for the given bytes.
pub uninterp spec fn utf8_lossy_of(b: Seq<u8>) -> Seq<char>;

/// Relies on String::from_utf8_lossy: the result is a function of the bytes
/// alone, and ASCII bytes decode to the corresponding characters unchanged.
#[verifier::external_body]
fn utf8_lossy_string(b: &Vec<u8>) -> (r: String)
    ensures
        r@ == utf8_lossy_of(b@),
        (forall|i: int| 0 <= i < b@.len() ==> b@[i] < 128) ==> r@ == b@.map_values(
            |x: u8| x as char,
        ),
{
    String::from_utf8_lossy(b.as_slice()).to_string()
}

/// Header template bytes "8=FIX.4.2" SOH "9=".
pub open spec fn header_bytes_42() -> Seq<u8> {
    seq![56u8, 61, 70, 73, 88, 46, 52, 46, 50, 1, 57, 61]
}

/// Header template bytes "8=FIX.4.4" SOH "9=".
pub open spec fn header_bytes_44() -> Seq<u8> {
    seq![56u8, 61, 70, 73, 88, 46, 52, 46, 52, 1, 57, 61]
}

/// Header template bytes "8=FIX.5.0" SOH "9=".
pub open spec fn header_bytes_50() -> Seq<u8> {
    seq![56u8, 61, 70, 73, 88, 46, 53, 46, 48, 1, 57, 61]
}

/// String equality, decided byte by byte.
pub(crate) fn str_eq(a: &str, b: &str) -> (r: bool)
    ensures
        r == (a@ == b@),
{
    let ab = a.as_bytes();
    let bb = b.as_bytes();
    proof {
        vstd::utf8::encode_utf8_decode_utf8(a@);
        vstd::utf8::encode_utf8_decode_utf8(b@);
    }
    if ab.len() != bb.len() {
        return false;
    }
    let n = ab.len();
    let mut i: usize = 0;
    while i < n
        invariant
            n == ab@.len() == bb@.len(),
            ab@ == a.spec_bytes(),
            bb@ == b.spec_bytes(),
            0 <= i <= n,
            forall|k: int| 0 <= k < i ==> ab@[k] == bb@[k],
        decreases n - i,
    {
        if ab[i] != bb[i] {
            proof {
                assert(a.spec_bytes() != b.spec_bytes());
            }
            return false;
        }
        i = i + 1;
    }
    proof {
        assert(a.spec_bytes() =~= b.spec_bytes());
        assert(vstd::utf8::decode_utf8(a.spec_bytes()) == a@);
        assert(vstd::utf8::decode_utf8(b.spec_bytes()) == b@);
    }
    true
}

/// Frame decoder for one session: holds the begin-string and body-length
/// header template derived from the configured protocol version.
pub struct MyFIXDecoder {
    header1: Vec<u8>,
}

impl MyFIXDecoder {
    /// The header template the decoder expects at the start of every frame.
    pub closed spec fn spec_header(&self) -> Seq<u8> {
        self.header1@
    }

    /// The template has the fixed length the scan offsets are built on.
    pub open spec fn wf(&self) -> bool {
        self.spec_header().len() == 12
    }

    /// Builds the decoder for a protocol version; an unsupported version
    /// falls back to 4.2.
    pub fn new(version: &str) -> (d: MyFIXDecoder)
        ensures
            d.wf(),
            version@ == "4.4"@ ==> d.spec_header() == header_bytes_44(),
            version@ == "5.0"@ ==> d.spec_header() == header_bytes_50(),
            version@ != "4.4"@ && version@ != "5.0"@ ==> d.spec_header() == header_bytes_42(),
    {
        proof {
            reveal_strlit("4.2");
            reveal_strlit("4.4");
            reveal_strlit("5.0");
            reveal_strlit("8=FIX.4.2\u{1}9=");
            reveal_strlit("8=FIX.4.4\u{1}9=");
            reveal_strlit("8=FIX.5.0\u{1}9=");
            assert("4.2"@ != "4.4"@) by {
                assert("4.2"@[2] != "4.4"@[2]);
            }
            assert("4.2"@ != "5.0"@) by {
                assert("4.2"@[0] != "5.0"@[0]);
            }
            assert("4.4"@ != "5.0"@) by {
                assert("4.4"@[0] != "5.0"@[0]);
            }
        }
        let header1: Vec<u8>;
        if str_eq(version, "4.2") {
            header1 = "8=FIX.4.2\u{1}9=".as_bytes_vec();
            proof {
                vstd::utf8::is_ascii_chars_encode_utf8("8=FIX.4.2\u{1}9="@);
                assert(header1@ =~= header_bytes_42());
            }
        } else if str_eq(version, "4.4") {
            header1 = "8=FIX.4.4\u{1}9=".as_bytes_vec();
            proof {
                vstd::utf8::is_ascii_chars_encode_utf8("8=FIX.4.4\u{1}9="@);
                assert(header1@ =~= header_bytes_44());
            }
        } else if str_eq(version, "5.0") {
            header1 = "8=FIX.5.0\u{1}9=".as_bytes_vec();
            proof {
                vstd::utf8::is_ascii_chars_encode_utf8("8=FIX.5.0\u{1}9="@);
                assert(header1@ =~= header_bytes_50());
            }
        } else {
            header1 = "8=FIX.4.2\u{1}9=".as_bytes_vec();
            proof {
                vstd::utf8::is_ascii_chars_encode_utf8("8=FIX.4.2\u{1}9="@);
                assert(header1@ =~= header_bytes_42());
            }
        }
        MyFIXDecoder { header1 }
    }

    /// Attempts to extract one complete message from the front of `src`.
    /// Returns the message copied out as an owned string, `None` when more
    /// bytes are needed, or the framing fault. The buffer itself is never
    /// touched: discarding consumed bytes is the caller's responsibility.
    pub fn decode(&self, src: &bytes::BytesMut) -> (r: Result<Option<String>, FramingError>)
        requires
            self.wf(),
        ensures
            (r matches Ok(Some(s)) ==> decode_spec(self.spec_header(), bm_bytes(*src))
                matches SpecDecodeResult::Frame(end) && s@ == utf8_lossy_of(
                bm_bytes(*src).subrange(0, end),
            )),
            decode_spec(self.spec_header(), bm_bytes(*src)) is Frame ==> r matches Ok(Some(_)),
            (r matches Ok(None)) <==> decode_spec(self.spec_header(), bm_bytes(*src))
                is Incomplete,
            (r == Result::<Option<String>, FramingError>::Err(FramingError::MalformedLength))
                <==> decode_spec(self.spec_header(), bm_bytes(*src)) is BadLength,
            (r == Result::<Option<String>, FramingError>::Err(FramingError::MalformedChecksum))
                <==> decode_spec(self.spec_header(), bm_bytes(*src)) is BadChecksum,
    {
        let ghost b = bm_bytes(*src);
        let ghost h = self.spec_header();
        let n = bm_len(src);
        if n < 63 {
            return Ok(None);
        }
        let hlen = self.header1.len();
        let mut i: usize = 0;
        while i < hlen
            invariant
                n == b.len(),
                63 <= n,
                hlen == h.len() == 12,
                b == bm_bytes(*src),
                h == self.spec_header(),
                self.header1@ == h,
                0 <= i <= hlen,
                forall|k: int| 0 <= k < i ==> lower_byte(#[trigger] b[k]) == lower_byte(h[k]),
            decreases hlen - i,
        {
            let x = bm_get(src, i);
            let t = self.header1[i];
            let lx = if x >= 65 && x <= 90 {
                x + 32
            } else {
                x
            };
            let lt = if t >= 65 && t <= 90 {
                t + 32
            } else {
                t
            };
            if lx != lt {
                proof {
                    assert(!prefix_matches_ci(h, b));
                }
                return Ok(None);
            }
            i = i + 1;
        }
        proof {
            assert(prefix_matches_ci(h, b));
        }
        let mut j: usize = hlen;
        while j < n
            invariant
                n == b.len(),
                b == bm_bytes(*src),
                hlen == 12,
                hlen <= j <= n,
                forall|k: int| hlen <= k < j ==> is_digit_byte(#[trigger] b[k]),
            ensures
                n == b.len(),
                hlen <= j <= n,
                forall|k: int| hlen <= k < j ==> is_digit_byte(#[trigger] b[k]),
                j == n || !is_digit_byte(b[j as int]),
            decreases n - j,
        {
            let c = bm_get(src, j);
            if c < 48 || c > 57 {
                break;
            }
            j = j + 1;
        }
        proof {
            lemma_scan_end_unique(b, hlen as int, j as int);
        }
        if j == n {
            return Ok(None);
        }
        let sep = bm_get(src, j);
        if sep != 1u8 {
            return Err(FramingError::MalformedLength);
        }
        let ghost vspec = digits_val(b.subrange(hlen as int, j as int));
        let mut v: u128 = 0;
        let mut big: bool = false;
        let mut k: usize = hlen;
        while k < j
            invariant
                n == b.len(),
                b == bm_bytes(*src),
                hlen == 12,
                hlen <= k <= j < n,
                forall|m: int| hlen <= m < j ==> is_digit_byte(#[trigger] b[m]),
                !big ==> v == digits_val(b.subrange(hlen as int, k as int)) && v <= usize::MAX
                    as u128,
                big ==> digits_val(b.subrange(hlen as int, k as int)) > usize::MAX,
            decreases j - k,
        {
            let d = bm_get(src, k);
            proof {
                assert(is_digit_byte(b[k as int]));
                assert(b.subrange(hlen as int, k + 1).drop_last() =~= b.subrange(
                    hlen as int,
                    k as int,
                ));
                assert(b.subrange(hlen as int, k + 1).last() == b[k as int]);
            }
            if !big {
                v = v * 10 + ((d - 48) as u128);
                if v > (usize::MAX as u128) {
                    big = true;
                }
            }
            k = k + 1;
        }
        if big {
            proof {
                assert(vspec > usize::MAX);
                assert(b.len() < j + 8 + vspec);
            }
            return Ok(None);
        }
        proof {
            assert(v == vspec);
        }
        let total128: u128 = j as u128 + 8 + v;
        if total128 > n as u128 {
            proof {
                assert(b.len() < j + 8 + vspec);
            }
            return Ok(None);
        }
        let total = total128 as usize;
        proof {
            assert(total == j + 8 + vspec);
            assert(total >= 20);
        }
        let d1 = bm_get(src, total - 4);
        let d2 = bm_get(src, total - 3);
        let d3 = bm_get(src, total - 2);
        if d1 >= 48 && d1 <= 57 && d2 >= 48 && d2 <= 57 && d3 >= 48 && d3 <= 57 {
            let frame = bm_prefix(src, total);
            let s = utf8_lossy_string(&frame);
            Ok(Some(s))
        } else {
            Err(FramingError::MalformedChecksum)
        }
    }
}


/// A buffer holding any strict prefix of one complete message decodes as
/// "incomplete", never as an error, whatever the truncation length.
pub proof fn lemma_prefix_incomplete(h: Seq<u8>, b: Seq<u8>, k: int)
    requires
        h.len() == 12,
        decode_spec(h, b) == SpecDecodeResult::Frame(b.len() as int),
        0 <= k < b.len(),
    ensures
        decode_spec(h, b.subrange(0, k)) is Incomplete,
{
    let p = b.subrange(0, k);
    if k >= 63 {
        let j = scan_end(b, 12);
        lemma_scan_end_props(b, 12);
        let v = digits_val(b.subrange(12, j));
        assert(j < b.len() && b[j] == soh_byte() && j + 8 + v == b.len());
        assert(prefix_matches_ci(h, p)) by {
            assert(forall|i: int| 0 <= i < 12 ==> p[i] == #[trigger] b[i]);
        }
        if k <= j {
            assert forall|t: int| 12 <= t < k implies is_digit_byte(#[trigger] p[t]) by {
                assert(p[t] == b[t]);
            }
            lemma_scan_end_unique(p, 12, k);
        } else {
            assert forall|t: int| 12 <= t < j implies is_digit_byte(#[trigger] p[t]) by {
                assert(p[t] == b[t]);
            }
            assert(p[j] == b[j]);
            assert(!is_digit_byte(p[j]));
            lemma_scan_end_unique(p, 12, j);
            assert(p.subrange(12, j) =~= b.subrange(12, j));
            assert(p.len() < j + 8 + v);
        }
    }
}

use crate::fix_msg_builder::{
    ascii_bytes, byte_sum, cks_rep, dec_rep, default_sender, default_target, fld, framed,
    header_one_of, heartbeat_pre, is_timestamp_chars, lemma_ascii_concat2, lemma_checksum_rendering,
    lemma_dec_rep_digits, lemma_dec_rep_val, lemma_digits_ascii, lemma_fld_ascii,
    lemma_std_header_fields_ascii, lemma_timestamp_ascii, lemma_wire_bytes_ascii, logon_pre, soh,
    std_header_fields, test_request_pre, version_42, wire_bytes,
};

/// A message built by the encoder around any ASCII pre-body of at least 42
/// bytes decodes as exactly one complete frame occupying the whole buffer:
/// nothing of it is rejected, nothing is left over, and the frame is
/// byte-identical to what was encoded.
pub proof fn lemma_encode_decode_frame(pre: Seq<char>)
    requires
        vstd::utf8::is_ascii_chars(pre),
        pre.len() >= 42,
    ensures
        ({
            let b = wire_bytes(framed(version_42(), pre));
            decode_spec(header_bytes_42(), b) == SpecDecodeResult::Frame(b.len() as int)
        }),
{
    let m = framed(version_42(), pre);
    let h1 = header_one_of(version_42());
    let dl = dec_rep(wire_bytes(pre).len());
    let front = h1 + dl + seq![soh()] + pre;
    let cks = cks_rep(byte_sum(wire_bytes(front)) % 256);
    let trailer = fld(seq!['1', '0'], cks);
    assert(m == front + trailer);
    lemma_wire_bytes_ascii(pre);
    assert(dl == dec_rep(pre.len() as nat));
    lemma_dec_rep_digits(pre.len() as nat);
    lemma_digits_ascii(dl);
    assert(h1 =~= seq!['8', '=', 'F', 'I', 'X', '.', '4', '.', '2', soh(), '9', '=']);
    assert(vstd::utf8::is_ascii_chars(h1));
    assert(vstd::utf8::is_ascii_chars(seq![soh()]));
    lemma_ascii_concat2(h1, dl);
    lemma_ascii_concat2(h1 + dl, seq![soh()]);
    lemma_ascii_concat2(h1 + dl + seq![soh()], pre);
    assert(vstd::utf8::is_ascii_chars(front));
    lemma_checksum_rendering(byte_sum(wire_bytes(front)) % 256);
    lemma_digits_ascii(cks);
    assert(vstd::utf8::is_ascii_chars(seq!['1', '0']));
    lemma_fld_ascii(seq!['1', '0'], cks);
    lemma_ascii_concat2(front, trailer);
    assert(vstd::utf8::is_ascii_chars(m));
    lemma_wire_bytes_ascii(m);
    let b = wire_bytes(m);
    assert(b == ascii_bytes(m));
    let dlen = dl.len() as int;
    assert(front.len() == 13 + dlen + pre.len());
    assert(trailer.len() == 7);
    let total = m.len() as int;
    assert(total == 20 + dlen + pre.len());
    assert(b.len() == total);
    assert(b.len() >= 63);
    // the first twelve bytes are the 4.2 header template
    assert(prefix_matches_ci(header_bytes_42(), b)) by {
        assert forall|i: int| 0 <= i < 12 implies lower_byte(#[trigger] b[i]) == lower_byte(
            header_bytes_42()[i],
        ) by {
            assert(m[i] == front[i]);
            assert(front[i] == h1[i]);
            assert(b[i] == h1[i] as u8);
        }
    }
    // the body-length digits, then the separator
    assert forall|t: int| 12 <= t < 12 + dlen implies is_digit_byte(#[trigger] b[t]) by {
        assert(m[t] == front[t]);
        assert(front[t] == dl[t - 12]);
        assert('0' <= dl[t - 12] <= '9');
    }
    assert(m[12 + dlen] == front[12 + dlen]);
    assert(front[12 + dlen] == soh());
    assert(b[12 + dlen] == soh_byte());
    assert(!is_digit_byte(b[12 + dlen]));
    lemma_scan_end_unique(b, 12, 12 + dlen);
    assert(scan_end(b, 12) == 12 + dlen);
    // the declared body length denotes the pre-body byte count
    assert(b.subrange(12, 12 + dlen) =~= ascii_bytes(dl)) by {
        assert forall|t: int| 0 <= t < dlen implies b.subrange(12, 12 + dlen)[t] == ascii_bytes(
            dl,
        )[t] by {
            assert(b[12 + t] == m[12 + t] as u8);
            assert(m[12 + t] == front[12 + t]);
            assert(front[12 + t] == dl[t]);
        }
    }
    lemma_dec_rep_val(pre.len() as nat);
    let v = digits_val(b.subrange(12, 12 + dlen));
    assert(v == pre.len());
    assert(12 + dlen + 8 + v == total);
    // the three checksum digits before the final separator
    assert forall|t: int| total - 4 <= t < total - 1 implies is_digit_byte(#[trigger] b[t]) by {
        assert(m[t] == trailer[t - front.len()]);
        assert(trailer =~= seq!['1', '0', '='] + cks + seq![soh()]);
        assert(trailer[t - front.len()] == cks[t - front.len() - 3]);
        assert('0' <= cks[t - front.len() - 3] <= '9');
    }
    assert(is_digit_byte(b[total - 4]));
    assert(is_digit_byte(b[total - 3]));
    assert(is_digit_byte(b[total - 2]));
    assert(decode_spec(header_bytes_42(), b) == SpecDecodeResult::Frame(total));
}

/// Round trip for encoder-built heartbeats: a built heartbeat decodes as one
/// complete frame, byte-identical to what was encoded, so its body fields
/// survive unchanged.
pub proof fn lemma_heartbeat_round_trip(seq_no: nat, ts: Seq<char>, trid: Seq<char>)
    requires
        is_timestamp_chars(ts),
        vstd::utf8::is_ascii_chars(trid),
    ensures
        ({
            let b = wire_bytes(
                framed(
                    version_42(),
                    heartbeat_pre(default_sender(), default_target(), seq_no, ts, trid),
                ),
            );
            decode_spec(header_bytes_42(), b) == SpecDecodeResult::Frame(b.len() as int)
        }),
{
    let hdr = std_header_fields('0', default_sender(), default_target(), seq_no, ts);
    let pre = heartbeat_pre(default_sender(), default_target(), seq_no, ts, trid);
    lemma_timestamp_ascii(ts);
    lemma_std_header_fields_ascii('0', seq_no, ts);
    if trid.len() > 0 {
        assert(vstd::utf8::is_ascii_chars(seq!['1', '1', '2']));
        lemma_fld_ascii(seq!['1', '1', '2'], trid);
        lemma_ascii_concat2(hdr, fld(seq!['1', '1', '2'], trid));
    } else {
        assert(pre =~= hdr);
    }
    lemma_encode_decode_frame(pre);
}

/// Round trip for encoder-built logons.
pub proof fn lemma_logon_round_trip(seq_no: nat, ts: Seq<char>, enc: char, hb: nat)
    requires
        is_timestamp_chars(ts),
        '\0' <= enc <= '\u{7f}',
    ensures
        ({
            let b = wire_bytes(
                framed(
                    version_42(),
                    logon_pre(default_sender(), default_target(), seq_no, ts, enc, hb),
                ),
            );
            decode_spec(header_bytes_42(), b) == SpecDecodeResult::Frame(b.len() as int)
        }),
{
    let hdr = std_header_fields('A', default_sender(), default_target(), seq_no, ts);
    let pre = logon_pre(default_sender(), default_target(), seq_no, ts, enc, hb);
    lemma_timestamp_ascii(ts);
    lemma_std_header_fields_ascii('A', seq_no, ts);
    lemma_dec_rep_digits(hb);
    lemma_digits_ascii(dec_rep(hb));
    assert(vstd::utf8::is_ascii_chars(seq!['9', '8']));
    assert(vstd::utf8::is_ascii_chars(seq![enc]));
    assert(vstd::utf8::is_ascii_chars(seq!['1', '0', '8']));
    lemma_fld_ascii(seq!['9', '8'], seq![enc]);
    lemma_fld_ascii(seq!['1', '0', '8'], dec_rep(hb));
    lemma_ascii_concat2(hdr, fld(seq!['9', '8'], seq![enc]));
    lemma_ascii_concat2(hdr + fld(seq!['9', '8'], seq![enc]), fld(seq!['1', '0', '8'], dec_rep(hb)));
    lemma_encode_decode_frame(pre);
}

/// Round trip for encoder-built test requests.
pub proof fn lemma_test_request_round_trip(seq_no: nat, ts: Seq<char>, trid: Seq<char>)
    requires
        is_timestamp_chars(ts),
        vstd::utf8::is_ascii_chars(trid),
    ensures
        ({
            let b = wire_bytes(
                framed(
                    version_42(),
                    test_request_pre(default_sender(), default_target(), seq_no, ts, trid),
                ),
            );
            decode_spec(header_bytes_42(), b) == SpecDecodeResult::Frame(b.len() as int)
        }),
{
    let hdr = std_header_fields('1', default_sender(), default_target(), seq_no, ts);
    let pre = test_request_pre(default_sender(), default_target(), seq_no, ts, trid);
    lemma_timestamp_ascii(ts);
    lemma_std_header_fields_ascii('1', seq_no, ts);
    assert(vstd::utf8::is_ascii_chars(seq!['1', '1', '2']));
    lemma_fld_ascii(seq!['1', '1', '2'], trid);
    lemma_ascii_concat2(hdr, fld(seq!['1', '1', '2'], trid));
    lemma_encode_decode_frame(pre);
}

} // verus!
