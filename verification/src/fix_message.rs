//! The unit exchanged at the application boundary: a decoded wire message
//! split into header, body and trailer at its field separators, with its
//! classification character.

use vstd::prelude::*;
use vstd::string::StrSliceExecFns;
use vstd::string::StringExecFns;
use crate::fix_msg_builder::{
    byte_sum, cks_rep, dec_rep, default_sender, default_target, fld, framed, header_one_of,
    heartbeat_pre, is_timestamp_chars, lemma_checksum_rendering, lemma_dec_rep_digits, logon_pre,
    soh, std_header_fields, test_request_pre, version_42, wire_bytes,
};

verus! {

/// Positions of the field separator in a message, in ascending order.
pub open spec fn sep_positions(s: Seq<char>) -> Seq<int>
    decreases s.len(),
{
    if s.len() == 0 {
        Seq::<int>::empty()
    } else {
        let rest = sep_positions(s.drop_last());
        if s.last() == soh() {
            rest.push(s.len() - 1)
        } else {
            rest
        }
    }
}

pub proof fn lemma_sep_positions_props(s: Seq<char>)
    ensures
        forall|t: int|
            0 <= t < sep_positions(s).len() ==> 0 <= #[trigger] sep_positions(s)[t] < s.len(),
        forall|t: int|
            0 <= t < sep_positions(s).len() ==> s[#[trigger] sep_positions(s)[t]] == soh(),
        forall|t1: int, t2: int|
            0 <= t1 < t2 < sep_positions(s).len() ==> #[trigger] sep_positions(s)[t1]
                < #[trigger] sep_positions(s)[t2],
    decreases s.len(),
{
    if s.len() > 0 {
        lemma_sep_positions_props(s.drop_last());
        let pr = sep_positions(s.drop_last());
        let p = sep_positions(s);
        assert(s.drop_last().len() == s.len() - 1);
        assert forall|t: int| 0 <= t < pr.len() implies 0 <= #[trigger] pr[t] < s.len() - 1
            && s[pr[t]] == soh() by {
            assert(s.drop_last()[pr[t]] == s[pr[t]]);
        }
        if s.last() == soh() {
            assert(p == pr.push(s.len() - 1));
            assert(s[s.len() - 1] == soh());
        } else {
            assert(p == pr);
        }
    }
}

/// Text without separators contributes no separator positions.
pub proof fn lemma_sep_positions_none(s: Seq<char>)
    requires
        forall|i: int| 0 <= i < s.len() ==> s[i] != soh(),
    ensures
        sep_positions(s) == Seq::<int>::empty(),
    decreases s.len(),
{
    if s.len() > 0 {
        assert(s.drop_last() =~= s.subrange(0, s.len() - 1));
        lemma_sep_positions_none(s.drop_last());
        assert(sep_positions(s) =~= Seq::<int>::empty());
    }
}

/// Separator positions of a concatenation: those of the left part, then
/// those of the right part shifted past it.
pub proof fn lemma_sep_positions_concat(a: Seq<char>, b: Seq<char>)
    ensures
        sep_positions(a + b) == sep_positions(a) + sep_positions(b).map_values(
            |x: int| x + a.len(),
        ),
    decreases b.len(),
{
    if b.len() == 0 {
        assert(a + b =~= a);
        assert(sep_positions(b).map_values(|x: int| x + a.len()) =~= Seq::<int>::empty());
        assert(sep_positions(a) + Seq::<int>::empty() =~= sep_positions(a));
    } else {
        lemma_sep_positions_concat(a, b.drop_last());
        assert((a + b).drop_last() =~= a + b.drop_last());
        assert((a + b).last() == b.last());
        if b.last() == soh() {
            assert(sep_positions(b).map_values(|x: int| x + a.len()) =~= sep_positions(
                b.drop_last(),
            ).map_values(|x: int| x + a.len()).push(b.len() - 1 + a.len()));
            assert(sep_positions(a) + sep_positions(b).map_values(|x: int| x + a.len())
                =~= (sep_positions(a) + sep_positions(b.drop_last()).map_values(
                |x: int| x + a.len(),
            )).push((a + b).len() - 1));
        } else {
            assert(sep_positions(b).map_values(|x: int| x + a.len()) =~= sep_positions(
                b.drop_last(),
            ).map_values(|x: int| x + a.len()));
        }
    }
}

/// A separator-free chunk closed by one separator contributes exactly the
/// position of that separator.
pub proof fn lemma_sep_positions_chunk(x: Seq<char>)
    requires
        forall|i: int| 0 <= i < x.len() ==> x[i] != soh(),
    ensures
        sep_positions(x + seq![soh()]) == seq![x.len() as int],
{
    assert((x + seq![soh()]).drop_last() =~= x);
    lemma_sep_positions_none(x);
    assert(sep_positions(x + seq![soh()]) =~= seq![x.len() as int]);
}

/// A decoded message: header (through the message-type field), body, trailer
/// and the classification character.
pub struct FixMessage {
    header: String,
    body: String,
    trailer: String,
    msg_type: char,
}

impl FixMessage {
    /// The header part: everything before the separator that ends the
    /// message-type field.
    pub closed spec fn spec_header(&self) -> Seq<char> {
        self.header@
    }

    /// The body part: from that separator up to the separator that ends the
    /// last body field.
    pub closed spec fn spec_body(&self) -> Seq<char> {
        self.body@
    }

    /// The trailer part: the checksum field without its final separator.
    pub closed spec fn spec_trailer(&self) -> Seq<char> {
        self.trailer@
    }

    /// The classification character.
    pub closed spec fn spec_msg_type(&self) -> char {
        self.msg_type
    }

    pub fn get_msg_type(&self) -> (c: char)
        ensures
            c == self.spec_msg_type(),
    {
        self.msg_type
    }

    pub fn get_body(&self) -> (b: String)
        ensures
            b@ == self.spec_body(),
    {
        self.body.clone()
    }

    /// A bare message around a given body and classification, for events that
    /// carry no full wire message.
    pub fn dummy(message: &String, msg_type: char) -> (m: Self)
        ensures
            m.spec_header() == Seq::<char>::empty(),
            m.spec_body() == message@,
            m.spec_trailer() == Seq::<char>::empty(),
            m.spec_msg_type() == msg_type,
    {
        Self {
            header: String::new(),
            body: message.clone(),
            trailer: String::new(),
            msg_type,
        }
    }

    /// Splits a complete wire message at its separators: the header runs to
    /// the third separator (which ends the message-type field), the trailer
    /// starts at the second-to-last separator, and the classification is the
    /// character just before the third separator.
    pub fn new(message: &String) -> (m: Self)
        requires
            sep_positions(message@).len() >= 4,
        ensures
            m.spec_header() == message@.subrange(0, sep_positions(message@)[2]),
            m.spec_body() == message@.subrange(
                sep_positions(message@)[2],
                sep_positions(message@)[sep_positions(message@).len() - 2],
            ),
            m.spec_trailer() == message@.subrange(
                sep_positions(message@)[sep_positions(message@).len() - 2],
                sep_positions(message@)[sep_positions(message@).len() - 1],
            ),
            m.spec_msg_type() == message@[sep_positions(message@)[2] - 1],
    {
        let len = message.as_str().unicode_len();
        let mut indices: Vec<usize> = Vec::new();
        let mut i: usize = 0;
        while i < len
            invariant
                len == message@.len(),
                0 <= i <= len,
                indices@.map_values(|u: usize| u as int) == sep_positions(message@.take(i as int)),
            decreases len - i,
        {
            let c = message.as_str().get_char(i);
            proof {
                assert(message@.take(i + 1).drop_last() =~= message@.take(i as int));
                assert(message@.take(i + 1).last() == message@[i as int]);
            }
            if c == '\u{1}' {
                indices.push(i);
                proof {
                    assert(indices@.map_values(|u: usize| u as int) =~= sep_positions(
                        message@.take(i + 1),
                    ));
                }
            } else {
                proof {
                    assert(indices@.map_values(|u: usize| u as int) =~= sep_positions(
                        message@.take(i + 1),
                    ));
                }
            }
            i = i + 1;
        }
        proof {
            assert(message@.take(len as int) =~= message@);
            lemma_sep_positions_props(message@);
        }
        let ghost p = sep_positions(message@);
        let n_idx = indices.len();
        proof {
            assert(indices@.map_values(|u: usize| u as int).len() == p.len());
            assert(p[0] < p[1] < p[2]);
            assert(indices@[2] as int == p[2]);
            assert(indices@[n_idx - 2] as int == p[p.len() - 2]);
            assert(indices@[n_idx - 1] as int == p[p.len() - 1]);
            assert(2 <= p[2] <= p[p.len() - 2] <= p[p.len() - 1] < message@.len());
        }
        let header_end_idx = indices[2];
        let trailer_start_idx = indices[n_idx - 2];
        let trailer_end_idx = indices[n_idx - 1];
        let hd = message.as_str().substring_char(0, header_end_idx);
        let bd = message.as_str().substring_char(header_end_idx, trailer_start_idx);
        let tr = message.as_str().substring_char(trailer_start_idx, trailer_end_idx);
        let mt = message.as_str().get_char(header_end_idx - 1);
        Self {
            header: String::from_str(hd),
            body: String::from_str(bd),
            trailer: String::from_str(tr),
            msg_type: mt,
        }
    }
}


/// A rendered field of separator-free tag and value holds exactly one
/// separator, at its end.
proof fn lemma_sep_positions_fld(t: Seq<char>, v: Seq<char>)
    requires
        forall|i: int| 0 <= i < t.len() ==> t[i] != soh(),
        forall|i: int| 0 <= i < v.len() ==> v[i] != soh(),
        soh() != '=',
    ensures
        sep_positions(fld(t, v)) == seq![fld(t, v).len() - 1],
        fld(t, v).len() == t.len() + v.len() + 2,
{
    let x = t + seq!['='] + v;
    assert(fld(t, v) =~= x + seq![soh()]);
    assert forall|i: int| 0 <= i < x.len() implies x[i] != soh() by {
        if i < t.len() {
            assert(x[i] == t[i]);
        } else if i == t.len() {
            assert(x[i] == '=');
        } else {
            assert(x[i] == v[i - t.len() - 1]);
        }
    }
    lemma_sep_positions_chunk(x);
    assert(seq![x.len() as int] =~= seq![fld(t, v).len() - 1]);
}

/// Separator positions of the mandatory header-field block with the fixed
/// identities: one per field, each at its field's closing separator.
proof fn lemma_sep_positions_std_header(mt: char, seq_no: nat, ts: Seq<char>)
    requires
        mt != soh(),
        is_timestamp_chars(ts),
    ensures
        ({
            let hdr = std_header_fields(mt, default_sender(), default_target(), seq_no, ts);
            let l35 = fld(seq!['3', '5'], seq![mt]).len() as int;
            let l49 = fld(seq!['4', '9'], default_sender()).len() as int;
            let l56 = fld(seq!['5', '6'], default_target()).len() as int;
            let l34 = fld(seq!['3', '4'], dec_rep(seq_no)).len() as int;
            sep_positions(hdr) == seq![
                l35 - 1,
                l35 + l49 - 1,
                l35 + l49 + l56 - 1,
                l35 + l49 + l56 + l34 - 1,
                hdr.len() - 1,
            ]
        }),
{
    let sender = default_sender();
    let target = default_target();
    let hdr = std_header_fields(mt, sender, target, seq_no, ts);
    let f35 = fld(seq!['3', '5'], seq![mt]);
    let f49 = fld(seq!['4', '9'], sender);
    let f56 = fld(seq!['5', '6'], target);
    let f34 = fld(seq!['3', '4'], dec_rep(seq_no));
    let f52 = fld(seq!['5', '2'], ts);
    lemma_dec_rep_digits(seq_no);
    assert(forall|i: int| 0 <= i < ts.len() ==> ts[i] != soh());
    assert(forall|i: int| 0 <= i < dec_rep(seq_no).len() ==> dec_rep(seq_no)[i] != soh());
    assert(forall|i: int| 0 <= i < sender.len() ==> sender[i] != soh());
    assert(forall|i: int| 0 <= i < target.len() ==> target[i] != soh());
    lemma_sep_positions_fld(seq!['3', '5'], seq![mt]);
    lemma_sep_positions_fld(seq!['4', '9'], sender);
    lemma_sep_positions_fld(seq!['5', '6'], target);
    lemma_sep_positions_fld(seq!['3', '4'], dec_rep(seq_no));
    lemma_sep_positions_fld(seq!['5', '2'], ts);
    let l35 = f35.len() as int;
    let l49 = f49.len() as int;
    let l56 = f56.len() as int;
    let l34 = f34.len() as int;
    lemma_sep_positions_concat(f35, f49);
    assert(sep_positions(f49).map_values(|x: int| x + f35.len()) =~= seq![l35 + l49 - 1]);
    assert(sep_positions(f35 + f49) =~= seq![l35 - 1, l35 + l49 - 1]);
    lemma_sep_positions_concat(f35 + f49, f56);
    assert(sep_positions(f56).map_values(|x: int| x + (f35 + f49).len()) =~= seq![
        l35 + l49 + l56 - 1,
    ]);
    assert(sep_positions(f35 + f49 + f56) =~= seq![l35 - 1, l35 + l49 - 1, l35 + l49 + l56 - 1]);
    lemma_sep_positions_concat(f35 + f49 + f56, f34);
    assert(sep_positions(f34).map_values(|x: int| x + (f35 + f49 + f56).len()) =~= seq![
        l35 + l49 + l56 + l34 - 1,
    ]);
    assert(sep_positions(f35 + f49 + f56 + f34) =~= seq![
        l35 - 1,
        l35 + l49 - 1,
        l35 + l49 + l56 - 1,
        l35 + l49 + l56 + l34 - 1,
    ]);
    lemma_sep_positions_concat(f35 + f49 + f56 + f34, f52);
    assert(sep_positions(f52).map_values(|x: int| x + (f35 + f49 + f56 + f34).len()) =~= seq![
        hdr.len() - 1,
    ]);
    assert(hdr == f35 + f49 + f56 + f34 + f52);
    assert(sep_positions(hdr) =~= seq![
        l35 - 1,
        l35 + l49 - 1,
        l35 + l49 + l56 - 1,
        l35 + l49 + l56 + l34 - 1,
        hdr.len() - 1,
    ]);
}

/// Separator positions of a complete message around any pre-body: the two
/// header separators, then the pre-body's own separators shifted past the
/// header, then the trailer's final separator.
proof fn lemma_sep_positions_framed(pre: Seq<char>)
    ensures
        ({
            let m = framed(version_42(), pre);
            let d = dec_rep(wire_bytes(pre).len()).len() as int;
            sep_positions(m) == seq![9int, 12 + d] + sep_positions(pre).map_values(
                |x: int| x + 13 + d,
            ) + seq![m.len() - 1]
        }),
{
    let dl = dec_rep(wire_bytes(pre).len());
    let d = dl.len() as int;
    let h1 = header_one_of(version_42());
    let front = h1 + dl + seq![soh()] + pre;
    let cksv = byte_sum(wire_bytes(front)) % 256;
    let cks = cks_rep(cksv);
    let trailer = fld(seq!['1', '0'], cks);
    let m = framed(version_42(), pre);
    assert(m == front + trailer);
    lemma_dec_rep_digits(wire_bytes(pre).len());
    lemma_checksum_rendering(cksv);
    assert(forall|i: int| 0 <= i < dl.len() ==> dl[i] != soh());
    assert(forall|i: int| 0 <= i < cks.len() ==> cks[i] != soh());
    lemma_sep_positions_fld(seq!['1', '0'], cks);
    let fld8 = fld(seq!['8'], version_42());
    assert(forall|i: int| 0 <= i < version_42().len() ==> version_42()[i] != soh());
    lemma_sep_positions_fld(seq!['8'], version_42());
    assert(h1 == fld8 + seq!['9', '=']);
    lemma_sep_positions_concat(fld8, seq!['9', '=']);
    lemma_sep_positions_none(seq!['9', '=']);
    assert(sep_positions(seq!['9', '=']).map_values(|x: int| x + fld8.len()) =~= Seq::<
        int,
    >::empty());
    assert(sep_positions(h1) =~= seq![9int]);
    lemma_sep_positions_concat(h1, dl);
    lemma_sep_positions_none(dl);
    assert(sep_positions(dl).map_values(|x: int| x + h1.len()) =~= Seq::<int>::empty());
    assert(sep_positions(h1 + dl) =~= seq![9int]);
    lemma_sep_positions_concat(h1 + dl, seq![soh()]);
    assert(seq![soh()].drop_last() =~= Seq::<char>::empty());
    assert(sep_positions(Seq::<char>::empty()) == Seq::<int>::empty());
    assert(sep_positions(seq![soh()]) =~= seq![0int]);
    assert(sep_positions(seq![soh()]).map_values(|x: int| x + (h1 + dl).len()) =~= seq![12 + d]);
    assert(sep_positions(h1 + dl + seq![soh()]) =~= seq![9int, 12 + d]);
    lemma_sep_positions_concat(h1 + dl + seq![soh()], pre);
    assert(front == (h1 + dl + seq![soh()]) + pre);
    assert((h1 + dl + seq![soh()]).len() == 13 + d);
    lemma_sep_positions_concat(front, trailer);
    assert(sep_positions(trailer).map_values(|x: int| x + front.len()) =~= seq![m.len() - 1]);
    assert(sep_positions(pre).map_values(|x: int| x + (h1 + dl + seq![soh()]).len())
        =~= sep_positions(pre).map_values(|x: int| x + 13 + d));
    assert(sep_positions(m) =~= seq![9int, 12 + d] + sep_positions(pre).map_values(
        |x: int| x + 13 + d,
    ) + seq![m.len() - 1]);
}

/// A slice of the pre-body read back out of the complete message around it.
proof fn lemma_framed_body_slice(pre: Seq<char>, lo: int, hi: int)
    requires
        0 <= lo <= hi <= pre.len(),
    ensures
        ({
            let m = framed(version_42(), pre);
            let d = dec_rep(wire_bytes(pre).len()).len() as int;
            m.subrange(13 + d + lo, 13 + d + hi) == pre.subrange(lo, hi)
        }),
{
    let dl = dec_rep(wire_bytes(pre).len());
    let d = dl.len() as int;
    let h1 = header_one_of(version_42());
    let front = h1 + dl + seq![soh()] + pre;
    let m = framed(version_42(), pre);
    assert(m.subrange(13 + d + lo, 13 + d + hi) =~= pre.subrange(lo, hi)) by {
        assert forall|i: int| 13 + d + lo <= i < 13 + d + hi implies m[i] == pre[i - (13 + d)] by {
            assert(m[i] == front[i]);
            assert(front[i] == pre[i - (13 + d)]);
        }
    }
}

/// Splitting a built heartbeat at its separators recovers the original body
/// fields: the classification character is '0', and the body part consists
/// of exactly the sender, target, sequence-number and sending-time fields
/// (and the test-request-id when one was given), byte for byte.
#[verifier::rlimit(100)]
pub proof fn lemma_heartbeat_body_round_trip(seq_no: nat, ts: Seq<char>, trid: Seq<char>)
    requires
        is_timestamp_chars(ts),
        forall|i: int| 0 <= i < trid.len() ==> trid[i] != soh(),
    ensures
        ({
            let m = framed(
                version_42(),
                heartbeat_pre(default_sender(), default_target(), seq_no, ts, trid),
            );
            let p = sep_positions(m);
            &&& p.len() == (if trid.len() > 0 { 9int } else { 8int })
            &&& m[p[2] - 1] == '0'
            &&& m.subrange(p[2], p[p.len() - 2]) == seq![soh()] + fld(
                seq!['4', '9'],
                default_sender(),
            ) + fld(seq!['5', '6'], default_target()) + fld(seq!['3', '4'], dec_rep(seq_no)) + (
            if trid.len() > 0 {
                fld(seq!['5', '2'], ts) + seq!['1', '1', '2', '='] + trid
            } else {
                seq!['5', '2', '='] + ts
            })
        }),
{
    let sender = default_sender();
    let target = default_target();
    let pre = heartbeat_pre(sender, target, seq_no, ts, trid);
    let hdr = std_header_fields('0', sender, target, seq_no, ts);
    let m = framed(version_42(), pre);
    let d = dec_rep(wire_bytes(pre).len()).len() as int;
    let f35 = fld(seq!['3', '5'], seq!['0']);
    let f49 = fld(seq!['4', '9'], sender);
    let f56 = fld(seq!['5', '6'], target);
    let f34 = fld(seq!['3', '4'], dec_rep(seq_no));
    let f52 = fld(seq!['5', '2'], ts);
    let f112 = fld(seq!['1', '1', '2'], trid);
    let l35 = f35.len() as int;
    let l49 = f49.len() as int;
    let l56 = f56.len() as int;
    let l34 = f34.len() as int;
    let lh = hdr.len() as int;
    let lp = pre.len() as int;

    lemma_sep_positions_std_header('0', seq_no, ts);
    if trid.len() > 0 {
        assert(pre == hdr + f112);
        lemma_sep_positions_fld(seq!['1', '1', '2'], trid);
        lemma_sep_positions_concat(hdr, f112);
        assert(sep_positions(f112).map_values(|x: int| x + hdr.len()) =~= seq![lp - 1]);
        assert(sep_positions(pre) =~= seq![
            l35 - 1,
            l35 + l49 - 1,
            l35 + l49 + l56 - 1,
            l35 + l49 + l56 + l34 - 1,
            lh - 1,
            lp - 1,
        ]);
    } else {
        assert(pre =~= hdr);
        assert(lp == lh);
    }
    lemma_sep_positions_framed(pre);
    let p = sep_positions(m);
    if trid.len() > 0 {
        assert(sep_positions(pre).map_values(|x: int| x + 13 + d) =~= seq![
            13 + d + l35 - 1,
            13 + d + l35 + l49 - 1,
            13 + d + l35 + l49 + l56 - 1,
            13 + d + l35 + l49 + l56 + l34 - 1,
            13 + d + lh - 1,
            13 + d + lp - 1,
        ]);
        assert(p =~= seq![
            9int,
            12 + d,
            13 + d + l35 - 1,
            13 + d + l35 + l49 - 1,
            13 + d + l35 + l49 + l56 - 1,
            13 + d + l35 + l49 + l56 + l34 - 1,
            13 + d + lh - 1,
            13 + d + lp - 1,
            m.len() - 1,
        ]);
        assert(p.len() == 9);
    } else {
        assert(sep_positions(pre).map_values(|x: int| x + 13 + d) =~= seq![
            13 + d + l35 - 1,
            13 + d + l35 + l49 - 1,
            13 + d + l35 + l49 + l56 - 1,
            13 + d + l35 + l49 + l56 + l34 - 1,
            13 + d + lh - 1,
        ]);
        assert(p =~= seq![
            9int,
            12 + d,
            13 + d + l35 - 1,
            13 + d + l35 + l49 - 1,
            13 + d + l35 + l49 + l56 - 1,
            13 + d + l35 + l49 + l56 + l34 - 1,
            13 + d + lh - 1,
            m.len() - 1,
        ]);
        assert(p.len() == 8);
    }

    assert(p[2] == 13 + d + l35 - 1);
    lemma_framed_body_slice(pre, l35 - 2, l35 - 1);
    assert(m[p[2] - 1] == m.subrange(13 + d + l35 - 2, 13 + d + l35 - 1)[0]);
    assert(pre.subrange(l35 - 2, l35 - 1)[0] == pre[l35 - 2]);
    assert(pre[l35 - 2] == f35[l35 - 2]);
    assert(f35[3] == '0');

    assert(p[p.len() - 2] == 13 + d + lp - 1);
    lemma_framed_body_slice(pre, l35 - 1, lp - 1);
    assert(m.subrange(p[2], p[p.len() - 2]) == pre.subrange(l35 - 1, lp - 1));
    if trid.len() > 0 {
        assert(pre.subrange(l35 - 1, lp - 1) =~= seq![soh()] + f49 + f56 + f34 + f52 + (seq![
            '1',
            '1',
            '2',
            '=',
        ] + trid)) by {
            assert(f112 =~= seq!['1', '1', '2', '='] + trid + seq![soh()]);
        }
    } else {
        assert(pre.subrange(l35 - 1, lp - 1) =~= seq![soh()] + f49 + f56 + f34 + (seq![
            '5',
            '2',
            '=',
        ] + ts)) by {
            assert(f52 =~= seq!['5', '2', '='] + ts + seq![soh()]);
        }
    }
}

/// Splitting a built logon at its separators recovers the original body
/// fields: the classification character is 'A', and the body part consists
/// of exactly the sender, target, sequence-number, sending-time and
/// encryption-method fields and the heartbeat interval, byte for byte.
#[verifier::rlimit(100)]
pub proof fn lemma_logon_body_round_trip(seq_no: nat, ts: Seq<char>, enc: char, hb: nat)
    requires
        is_timestamp_chars(ts),
        enc != soh(),
    ensures
        ({
            let m = framed(
                version_42(),
                logon_pre(default_sender(), default_target(), seq_no, ts, enc, hb),
            );
            let p = sep_positions(m);
            &&& p.len() == 10
            &&& m[p[2] - 1] == 'A'
            &&& m.subrange(p[2], p[p.len() - 2]) == seq![soh()] + fld(
                seq!['4', '9'],
                default_sender(),
            ) + fld(seq!['5', '6'], default_target()) + fld(seq!['3', '4'], dec_rep(seq_no)) + fld(
                seq!['5', '2'],
                ts,
            ) + fld(seq!['9', '8'], seq![enc]) + (seq!['1', '0', '8', '='] + dec_rep(hb))
        }),
{
    let sender = default_sender();
    let target = default_target();
    let pre = logon_pre(sender, target, seq_no, ts, enc, hb);
    let hdr = std_header_fields('A', sender, target, seq_no, ts);
    let m = framed(version_42(), pre);
    let d = dec_rep(wire_bytes(pre).len()).len() as int;
    let f35 = fld(seq!['3', '5'], seq!['A']);
    let f49 = fld(seq!['4', '9'], sender);
    let f56 = fld(seq!['5', '6'], target);
    let f34 = fld(seq!['3', '4'], dec_rep(seq_no));
    let f52 = fld(seq!['5', '2'], ts);
    let f98 = fld(seq!['9', '8'], seq![enc]);
    let f108 = fld(seq!['1', '0', '8'], dec_rep(hb));
    let l35 = f35.len() as int;
    let l49 = f49.len() as int;
    let l56 = f56.len() as int;
    let l34 = f34.len() as int;
    let l98 = f98.len() as int;
    let lh = hdr.len() as int;
    let lp = pre.len() as int;

    lemma_sep_positions_std_header('A', seq_no, ts);
    lemma_dec_rep_digits(hb);
    assert(forall|i: int| 0 <= i < dec_rep(hb).len() ==> dec_rep(hb)[i] != soh());
    lemma_sep_positions_fld(seq!['9', '8'], seq![enc]);
    lemma_sep_positions_fld(seq!['1', '0', '8'], dec_rep(hb));
    assert(pre == hdr + f98 + f108);
    lemma_sep_positions_concat(hdr, f98);
    assert(sep_positions(f98).map_values(|x: int| x + hdr.len()) =~= seq![lh + l98 - 1]);
    assert(sep_positions(hdr + f98) =~= seq![
        l35 - 1,
        l35 + l49 - 1,
        l35 + l49 + l56 - 1,
        l35 + l49 + l56 + l34 - 1,
        lh - 1,
        lh + l98 - 1,
    ]);
    lemma_sep_positions_concat(hdr + f98, f108);
    assert(sep_positions(f108).map_values(|x: int| x + (hdr + f98).len()) =~= seq![lp - 1]);
    assert(sep_positions(pre) =~= seq![
        l35 - 1,
        l35 + l49 - 1,
        l35 + l49 + l56 - 1,
        l35 + l49 + l56 + l34 - 1,
        lh - 1,
        lh + l98 - 1,
        lp - 1,
    ]);
    lemma_sep_positions_framed(pre);
    let p = sep_positions(m);
    assert(sep_positions(pre).map_values(|x: int| x + 13 + d) =~= seq![
        13 + d + l35 - 1,
        13 + d + l35 + l49 - 1,
        13 + d + l35 + l49 + l56 - 1,
        13 + d + l35 + l49 + l56 + l34 - 1,
        13 + d + lh - 1,
        13 + d + lh + l98 - 1,
        13 + d + lp - 1,
    ]);
    assert(p =~= seq![
        9int,
        12 + d,
        13 + d + l35 - 1,
        13 + d + l35 + l49 - 1,
        13 + d + l35 + l49 + l56 - 1,
        13 + d + l35 + l49 + l56 + l34 - 1,
        13 + d + lh - 1,
        13 + d + lh + l98 - 1,
        13 + d + lp - 1,
        m.len() - 1,
    ]);
    assert(p.len() == 10);

    assert(p[2] == 13 + d + l35 - 1);
    lemma_framed_body_slice(pre, l35 - 2, l35 - 1);
    assert(m[p[2] - 1] == m.subrange(13 + d + l35 - 2, 13 + d + l35 - 1)[0]);
    assert(pre.subrange(l35 - 2, l35 - 1)[0] == pre[l35 - 2]);
    assert(pre[l35 - 2] == f35[l35 - 2]);
    assert(f35[3] == 'A');

    assert(p[p.len() - 2] == 13 + d + lp - 1);
    lemma_framed_body_slice(pre, l35 - 1, lp - 1);
    assert(m.subrange(p[2], p[p.len() - 2]) == pre.subrange(l35 - 1, lp - 1));
    assert(pre.subrange(l35 - 1, lp - 1) =~= seq![soh()] + f49 + f56 + f34 + f52 + f98 + (seq![
        '1',
        '0',
        '8',
        '=',
    ] + dec_rep(hb))) by {
        assert(f108 =~= seq!['1', '0', '8', '='] + dec_rep(hb) + seq![soh()]);
    }
}

/// Splitting a built test request at its separators recovers the original
/// body fields: the classification character is '1', and the body part
/// consists of exactly the sender, target, sequence-number and sending-time
/// fields and the correlation id, byte for byte.
#[verifier::rlimit(100)]
pub proof fn lemma_test_request_body_round_trip(seq_no: nat, ts: Seq<char>, trid: Seq<char>)
    requires
        is_timestamp_chars(ts),
        forall|i: int| 0 <= i < trid.len() ==> trid[i] != soh(),
    ensures
        ({
            let m = framed(
                version_42(),
                test_request_pre(default_sender(), default_target(), seq_no, ts, trid),
            );
            let p = sep_positions(m);
            &&& p.len() == 9
            &&& m[p[2] - 1] == '1'
            &&& m.subrange(p[2], p[p.len() - 2]) == seq![soh()] + fld(
                seq!['4', '9'],
                default_sender(),
            ) + fld(seq!['5', '6'], default_target()) + fld(seq!['3', '4'], dec_rep(seq_no)) + fld(
                seq!['5', '2'],
                ts,
            ) + (seq!['1', '1', '2', '='] + trid)
        }),
{
    let sender = default_sender();
    let target = default_target();
    let pre = test_request_pre(sender, target, seq_no, ts, trid);
    let hdr = std_header_fields('1', sender, target, seq_no, ts);
    let m = framed(version_42(), pre);
    let d = dec_rep(wire_bytes(pre).len()).len() as int;
    let f35 = fld(seq!['3', '5'], seq!['1']);
    let f49 = fld(seq!['4', '9'], sender);
    let f56 = fld(seq!['5', '6'], target);
    let f34 = fld(seq!['3', '4'], dec_rep(seq_no));
    let f52 = fld(seq!['5', '2'], ts);
    let f112 = fld(seq!['1', '1', '2'], trid);
    let l35 = f35.len() as int;
    let l49 = f49.len() as int;
    let l56 = f56.len() as int;
    let l34 = f34.len() as int;
    let lh = hdr.len() as int;
    let lp = pre.len() as int;

    lemma_sep_positions_std_header('1', seq_no, ts);
    lemma_sep_positions_fld(seq!['1', '1', '2'], trid);
    assert(pre == hdr + f112);
    lemma_sep_positions_concat(hdr, f112);
    assert(sep_positions(f112).map_values(|x: int| x + hdr.len()) =~= seq![lp - 1]);
    assert(sep_positions(pre) =~= seq![
        l35 - 1,
        l35 + l49 - 1,
        l35 + l49 + l56 - 1,
        l35 + l49 + l56 + l34 - 1,
        lh - 1,
        lp - 1,
    ]);
    lemma_sep_positions_framed(pre);
    let p = sep_positions(m);
    assert(sep_positions(pre).map_values(|x: int| x + 13 + d) =~= seq![
        13 + d + l35 - 1,
        13 + d + l35 + l49 - 1,
        13 + d + l35 + l49 + l56 - 1,
        13 + d + l35 + l49 + l56 + l34 - 1,
        13 + d + lh - 1,
        13 + d + lp - 1,
    ]);
    assert(p =~= seq![
        9int,
        12 + d,
        13 + d + l35 - 1,
        13 + d + l35 + l49 - 1,
        13 + d + l35 + l49 + l56 - 1,
        13 + d + l35 + l49 + l56 + l34 - 1,
        13 + d + lh - 1,
        13 + d + lp - 1,
        m.len() - 1,
    ]);
    assert(p.len() == 9);

    assert(p[2] == 13 + d + l35 - 1);
    lemma_framed_body_slice(pre, l35 - 2, l35 - 1);
    assert(m[p[2] - 1] == m.subrange(13 + d + l35 - 2, 13 + d + l35 - 1)[0]);
    assert(pre.subrange(l35 - 2, l35 - 1)[0] == pre[l35 - 2]);
    assert(pre[l35 - 2] == f35[l35 - 2]);
    assert(f35[3] == '1');

    assert(p[p.len() - 2] == 13 + d + lp - 1);
    lemma_framed_body_slice(pre, l35 - 1, lp - 1);
    assert(m.subrange(p[2], p[p.len() - 2]) == pre.subrange(l35 - 1, lp - 1));
    assert(pre.subrange(l35 - 1, lp - 1) =~= seq![soh()] + f49 + f56 + f34 + f52 + (seq![
        '1',
        '1',
        '2',
        '=',
    ] + trid)) by {
        assert(f112 =~= seq!['1', '1', '2', '='] + trid + seq![soh()]);
    }
}

} // verus!
