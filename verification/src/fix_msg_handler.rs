//! Session engine: classifies decoded messages, drives the logon handshake,
//! answers test requests, satisfies resend requests from the message store,
//! and emits heartbeats on timer alarms.

use vstd::prelude::*;
use vstd::string::StrSliceExecFns;
use vstd::string::StringExecFns;
use crate::application_message::ApplicationMessage;
use crate::attribute_enums::{EncryptMethod, FixEnum, MsgType};
use crate::fix_message::FixMessage;
use crate::fix_msg_builder::soh;
use crate::fix_msg_builder::{
    appended_heartbeat, appended_logon, create_fix_heartbeat, create_fix_logon, default_sender,
    default_target, framed, heartbeat_pre, is_timestamp_chars, logon_pre, version_42,
};

verus! {

/// The first position at or after `i` holding character `c`, or the length.
pub open spec fn char_pos(s: Seq<char>, i: int, c: char) -> int
    decreases s.len() - i,
{
    if i < 0 || i >= s.len() {
        s.len() as int
    } else if s[i] == c {
        i
    } else {
        char_pos(s, i + 1, c)
    }
}

proof fn lemma_char_pos_unique(s: Seq<char>, i: int, c: char, m: int)
    requires
        0 <= i <= m <= s.len(),
        forall|k: int| i <= k < m ==> s[k] != c,
        m == s.len() || s[m] == c,
    ensures
        char_pos(s, i, c) == m,
    decreases m - i,
{
    if i < m {
        lemma_char_pos_unique(s, i + 1, c, m);
    }
}

proof fn lemma_char_pos_props(s: Seq<char>, i: int, c: char)
    requires
        0 <= i <= s.len(),
    ensures
        i <= char_pos(s, i, c) <= s.len(),
        forall|k: int| i <= k < char_pos(s, i, c) ==> s[k] != c,
        char_pos(s, i, c) < s.len() ==> s[char_pos(s, i, c)] == c,
    decreases s.len() - i,
{
    if i < s.len() && s[i] != c {
        lemma_char_pos_props(s, i + 1, c);
    }
}

/// The tag=value pairs of a message body, in order: segments are delimited
/// by the field separator, an empty segment or one without '=' yields no
/// pair, and in a segment the first '=' splits tag from value.
pub open spec fn parse_pairs_from(s: Seq<char>, i: int) -> Seq<(Seq<char>, Seq<char>)>
    decreases s.len() - i,
    via parse_pairs_from_decreases
{
    if i < 0 || i >= s.len() {
        Seq::<(Seq<char>, Seq<char>)>::empty()
    } else {
        let e = char_pos(s, i, soh());
        let q = char_pos(s, i, '=');
        let pairs = if e == i {
            Seq::<(Seq<char>, Seq<char>)>::empty()
        } else if q < e {
            seq![(s.subrange(i, q), s.subrange(q + 1, e))]
        } else {
            Seq::<(Seq<char>, Seq<char>)>::empty()
        };
        if e >= s.len() {
            pairs
        } else {
            pairs + parse_pairs_from(s, e + 1)
        }
    }
}

#[via_fn]
proof fn parse_pairs_from_decreases(s: Seq<char>, i: int) {
    if 0 <= i < s.len() {
        lemma_char_pos_props(s, i, soh());
    }
}

/// All tag=value pairs of a message body.
pub open spec fn parse_pairs(s: Seq<char>) -> Seq<(Seq<char>, Seq<char>)> {
    parse_pairs_from(s, 0)
}

/// The value of the last pair carrying the given tag, as a map built by
/// repeated insertion would return it.
pub open spec fn assoc_last(pairs: Seq<(Seq<char>, Seq<char>)>, key: Seq<char>) -> Option<
    Seq<char>,
>
    decreases pairs.len(),
{
    if pairs.len() == 0 {
        Option::<Seq<char>>::None
    } else if pairs.last().0 == key {
        Some(pairs.last().1)
    } else {
        assoc_last(pairs.drop_last(), key)
    }
}

/// An ASCII decimal digit.
pub open spec fn is_digit_char(c: char) -> bool {
    '0' <= c <= '9'
}

/// The number denoted by a run of decimal digit characters.
pub open spec fn char_digits_val(s: Seq<char>) -> nat
    decreases s.len(),
{
    if s.len() == 0 {
        0
    } else {
        (char_digits_val(s.drop_last()) * 10 + (s.last() as u8 - 48)) as nat
    }
}

/// What parsing an unsigned decimal field yields: the value when the text is
/// one or more digits and fits, nothing otherwise.
pub open spec fn parse_u64_spec(s: Seq<char>) -> Option<u64> {
    if s.len() == 0 {
        Option::<u64>::None
    } else if !(forall|k: int| 0 <= k < s.len() ==> is_digit_char(#[trigger] s[k])) {
        Option::<u64>::None
    } else if char_digits_val(s) > u64::MAX {
        Option::<u64>::None
    } else {
        Some(char_digits_val(s) as u64)
    }
}

/// Parses an unsigned decimal field: digits only, rejecting overflow.
pub fn parse_u64(s: &str) -> (r: Option<u64>)
    ensures
        r == parse_u64_spec(s@),
{
    let len = s.unicode_len();
    if len == 0 {
        return None;
    }
    let mut v: u128 = 0;
    let mut big: bool = false;
    let mut i: usize = 0;
    while i < len
        invariant
            len == s@.len(),
            0 <= i <= len,
            forall|k: int| 0 <= k < i ==> is_digit_char(#[trigger] s@[k]),
            !big ==> v == char_digits_val(s@.take(i as int)) && v <= u64::MAX as u128,
            big ==> char_digits_val(s@.take(i as int)) > u64::MAX,
        decreases len - i,
    {
        let c = s.get_char(i);
        if c < '0' || c > '9' {
            proof {
                assert(!is_digit_char(s@[i as int]));
            }
            return None;
        }
        proof {
            assert(s@.take(i + 1).drop_last() =~= s@.take(i as int));
            assert(s@.take(i + 1).last() == s@[i as int]);
        }
        if !big {
            v = v * 10 + ((c as u8 - 48) as u128);
            if v > (u64::MAX as u128) {
                big = true;
            }
        }
        i = i + 1;
    }
    proof {
        assert(s@.take(len as int) =~= s@);
    }
    if big {
        None
    } else {
        Some(v as u64)
    }
}

/// Splits a message body into its tag=value pairs, appending them to
/// `fields` in wire order.
pub fn parse_fix_message(buf: &str, fields: &mut Vec<(String, String)>)
    ensures
        final(fields)@.map_values(|p: (String, String)| (p.0@, p.1@)) == old(fields)@.map_values(
            |p: (String, String)| (p.0@, p.1@),
        ) + parse_pairs(buf@),
{
    let len = buf.unicode_len();
    let ghost mapped_old = fields@.map_values(|p: (String, String)| (p.0@, p.1@));
    let mut i: usize = 0;
    proof {
        assert(mapped_old + parse_pairs_from(buf@, 0) == fields@.map_values(
            |p: (String, String)| (p.0@, p.1@),
        ) + parse_pairs_from(buf@, i as int));
    }
    while i < len
        invariant
            len == buf@.len(),
            0 <= i <= len,
            mapped_old + parse_pairs_from(buf@, 0) == fields@.map_values(
                |p: (String, String)| (p.0@, p.1@),
            ) + parse_pairs_from(buf@, i as int),
        decreases len - i,
    {
        let ghost fields_pre = fields@.map_values(|p: (String, String)| (p.0@, p.1@));
        let e = find_char(buf, i, '\u{1}', len);
        let q = find_char(buf, i, '=', len);
        proof {
            lemma_char_pos_props(buf@, i as int, soh());
            lemma_char_pos_props(buf@, i as int, '=');
        }
        if e > i && q < e {
            let tag = buf.substring_char(i, q);
            let value = buf.substring_char(q + 1, e);
            fields.push((String::from_str(tag), String::from_str(value)));
            proof {
                assert(fields@.map_values(|p: (String, String)| (p.0@, p.1@)) =~= fields_pre
                    + seq![(buf@.subrange(i as int, q as int), buf@.subrange(q + 1, e as int))]);
            }
        }
        if e >= len {
            i = len;
            proof {
                assert(parse_pairs_from(buf@, len as int) =~= Seq::<(Seq<char>, Seq<char>)>::empty());
            }
        } else {
            i = e + 1;
        }
    }
    proof {
        assert(parse_pairs_from(buf@, len as int) =~= Seq::<(Seq<char>, Seq<char>)>::empty());
        assert(fields@.map_values(|p: (String, String)| (p.0@, p.1@)) =~= mapped_old + parse_pairs(
            buf@,
        ));
    }
}

/// The first position of `c` at or after `from`, or `len` when absent.
fn find_char(s: &str, from: usize, c: char, len: usize) -> (r: usize)
    requires
        len == s@.len(),
        from <= len,
    ensures
        r == char_pos(s@, from as int, c),
{
    let mut j: usize = from;
    while j < len
        invariant
            len == s@.len(),
            from <= j <= len,
            forall|k: int| from <= k < j ==> s@[k] != c,
        ensures
            from <= j <= len,
            forall|k: int| from <= k < j ==> s@[k] != c,
            j == len || s@[j as int] == c,
        decreases len - j,
    {
        let x = s.get_char(j);
        if x == c {
            break;
        }
        j = j + 1;
    }
    proof {
        lemma_char_pos_unique(s@, from as int, c, j as int);
    }
    j
}

/// Looks a tag up among parsed pairs, returning the value of its last
/// occurrence.
pub fn get_field(fields: &Vec<(String, String)>, key: &str) -> (r: Option<String>)
    ensures
        r matches Some(v) ==> assoc_last(
            fields@.map_values(|p: (String, String)| (p.0@, p.1@)),
            key@,
        ) == Some(v@),
        r is None ==> assoc_last(
            fields@.map_values(|p: (String, String)| (p.0@, p.1@)),
            key@,
        ) is None,
{
    let ghost mapped = fields@.map_values(|p: (String, String)| (p.0@, p.1@));
    let mut i: usize = fields.len();
    proof {
        assert(mapped.take(i as int) =~= mapped);
    }
    while i > 0
        invariant
            mapped == fields@.map_values(|p: (String, String)| (p.0@, p.1@)),
            0 <= i <= fields@.len(),
            mapped.len() == fields@.len(),
            assoc_last(mapped, key@) == assoc_last(mapped.take(i as int), key@),
        decreases i,
    {
        let pair_key = &fields[i - 1].0;
        proof {
            assert(mapped.take(i as int).last() == mapped[i - 1]);
            assert(mapped.take(i as int).drop_last() =~= mapped.take(i - 1));
            assert(mapped[i - 1].0 == fields@[i - 1].0@);
        }
        if crate::fix_decoder::str_eq(pair_key.as_str(), key) {
            let v = fields[i - 1].1.clone();
            return Some(v);
        }
        i = i - 1;
    }
    proof {
        assert(mapped.take(0) =~= Seq::<(Seq<char>, Seq<char>)>::empty());
    }
    None
}

/// The complete heartbeat message for a sequence number, instant and
/// test-request-id.
pub open spec fn hb_msg(seq_no: nat, ts: Seq<char>, trid: Seq<char>) -> Seq<char> {
    framed(version_42(), heartbeat_pre(default_sender(), default_target(), seq_no, ts, trid))
}

/// The complete logon message for a sequence number, instant, encryption
/// code and heartbeat interval.
pub open spec fn logon_msg(seq_no: nat, ts: Seq<char>, enc: char, hb: nat) -> Seq<char> {
    framed(version_42(), logon_pre(default_sender(), default_target(), seq_no, ts, enc, hb))
}

/// Append-only store of previously sent messages; the entry at index `i` is
/// the message that was sent with outbound sequence number `i`.
struct FixMsgStore {
    store: Vec<ApplicationMessage>,
}

impl FixMsgStore {
    spec fn contents(&self) -> Seq<Seq<char>> {
        self.store@.map_values(|m: ApplicationMessage| m.spec_message())
    }

    fn new() -> (s: FixMsgStore)
        ensures
            s.contents() == Seq::<Seq<char>>::empty(),
    {
        let s = FixMsgStore { store: Vec::new() };
        proof {
            assert(s.contents() =~= Seq::<Seq<char>>::empty());
        }
        s
    }

    fn push(&mut self, value: ApplicationMessage)
        ensures
            final(self).contents() == old(self).contents().push(value.spec_message()),
    {
        let ghost pre = self.contents();
        self.store.push(value);
        proof {
            assert(self.contents() =~= pre.push(value.spec_message()));
        }
    }

    fn get_single(&self, sequence_number: i32) -> (m: &ApplicationMessage)
        requires
            0 <= sequence_number < self.contents().len(),
        ensures
            m.spec_message() == self.contents()[sequence_number as int],
    {
        &self.store[sequence_number as usize]
    }

    fn get_slice(&self, begin: usize, end: usize) -> (r: &[ApplicationMessage])
        requires
            begin <= end <= self.contents().len(),
        ensures
            r@.map_values(|m: ApplicationMessage| m.spec_message()) == self.contents().subrange(
                begin as int,
                end as int,
            ),
    {
        let (_, tail) = self.store.as_slice().split_at(begin);
        let (r, _) = tail.split_at(end - begin);
        proof {
            assert(r@.map_values(|m: ApplicationMessage| m.spec_message()) =~= self.contents()
                .subrange(begin as int, end as int));
        }
        r
    }

    fn len(&self) -> (n: usize)
        ensures
            n == self.contents().len(),
    {
        self.store.len()
    }
}

/// Observable session modes.
#[derive(PartialEq, Eq, Structural)]
#[allow(non_camel_case_types)]
enum FixSessionStatus {
    DOWN,
    UP,
}

/// Mutable session record: logon status, sequence counters, configured
/// heartbeat interval.
struct FixStatus {
    logon_complete: bool,
    next_seq_id_to_send: i32,
    next_seq_id_ro_recv: i32,
    hb_interval: u64,
    status: FixSessionStatus,
}

impl FixStatus {
    fn new() -> (s: FixStatus)
        ensures
            s.logon_complete == false,
            s.next_seq_id_to_send == 0,
            s.next_seq_id_ro_recv == 0,
            s.hb_interval == 10u64,
            s.status == FixSessionStatus::DOWN,
    {
        FixStatus {
            logon_complete: false,
            next_seq_id_to_send: 0,
            next_seq_id_ro_recv: 0,
            hb_interval: 10,
            status: FixSessionStatus::DOWN,
        }
    }
}

/// The session engine: owns the session record and message store, and queues
/// what must reach the transport (outbound messages) and the heartbeat timer
/// (interval events) for the surrounding tasks to drain.
pub struct MyFixMsgHandler {
    fix_status: FixStatus,
    msg_store: FixMsgStore,
    outbox: Vec<ApplicationMessage>,
    interval_events: Vec<u64>,
}

/// Nothing observable about the engine changed.
pub open spec fn engine_unchanged(pre: MyFixMsgHandler, post: MyFixMsgHandler) -> bool {
    &&& post.seq_to_send() == pre.seq_to_send()
    &&& post.store_contents() == pre.store_contents()
    &&& post.outbox_msgs() == pre.outbox_msgs()
    &&& post.intervals() == pre.intervals()
    &&& post.spec_is_up() == pre.spec_is_up()
    &&& post.spec_hb_interval() == pre.spec_hb_interval()
}

/// One message was sent: it was assigned the current sequence number's slot,
/// appended to the store and to the outbox, and the counter moved up by one.
pub open spec fn engine_sent(pre: MyFixMsgHandler, post: MyFixMsgHandler, m: Seq<char>) -> bool {
    &&& post.seq_to_send() == pre.seq_to_send() + 1
    &&& post.store_contents() == pre.store_contents().push(m)
    &&& post.outbox_msgs() == pre.outbox_msgs().push(m)
    &&& post.intervals() == pre.intervals()
    &&& post.spec_hb_interval() == pre.spec_hb_interval()
}

/// Exactly one heartbeat carrying `trid` went out, stamped at some instant.
pub open spec fn heartbeat_reply_post(
    pre: MyFixMsgHandler,
    post: MyFixMsgHandler,
    trid: Seq<char>,
) -> bool {
    exists|ts: Seq<char>|
        is_timestamp_chars(ts) && #[trigger] engine_sent(
            pre,
            post,
            hb_msg(pre.seq_to_send() as nat, ts, trid),
        ) && post.spec_is_up() == pre.spec_is_up()
}

/// The correlation id named by tag 112 of a test-request body; empty when
/// the tag is absent.
pub open spec fn test_req_id_of(body: Seq<char>) -> Seq<char> {
    match assoc_last(parse_pairs(body), seq!['1', '1', '2']) {
        Some(v) => v,
        None => Seq::<char>::empty(),
    }
}

/// The heartbeat interval named by tag 108 of a logon body, when its value
/// parses.
pub open spec fn hb_interval_of(body: Seq<char>) -> Option<u64> {
    match assoc_last(parse_pairs(body), seq!['1', '0', '8']) {
        Some(v) => parse_u64_spec(v),
        None => Option::<u64>::None,
    }
}

/// What receiving a logon does: a malformed or unrepresentable interval
/// rejects the logon untouched; otherwise the interval is stored and
/// forwarded (in milliseconds), and a session that was down replies with its
/// own logon and comes up.
pub open spec fn logon_request_post(
    pre: MyFixMsgHandler,
    post: MyFixMsgHandler,
    body: Seq<char>,
) -> bool {
    match hb_interval_of(body) {
        None => engine_unchanged(pre, post),
        Some(hb) => {
            if hb > u64::MAX / 1000 {
                engine_unchanged(pre, post)
            } else {
                &&& post.spec_hb_interval() == hb
                &&& post.intervals() == pre.intervals().push((hb * 1000) as u64)
                &&& post.spec_is_up()
                &&& if pre.spec_is_up() {
                    &&& post.seq_to_send() == pre.seq_to_send()
                    &&& post.store_contents() == pre.store_contents()
                    &&& post.outbox_msgs() == pre.outbox_msgs()
                } else {
                    exists|ts: Seq<char>|
                        is_timestamp_chars(ts) && {
                            let m = #[trigger] logon_msg(pre.seq_to_send() as nat, ts, '0', hb as nat);
                            &&& post.store_contents() == pre.store_contents().push(m)
                            &&& post.outbox_msgs() == pre.outbox_msgs().push(m)
                            &&& post.seq_to_send() == pre.seq_to_send() + 1
                        }
                }
            }
        },
    }
}

/// The replay range of a resend request over a store of the given length:
/// the requested `[begin, end)` clamped to what was ever sent.
pub open spec fn replay_slice(store: Seq<Seq<char>>, b: u64, e: u64) -> Seq<Seq<char>> {
    let hi = if e <= store.len() {
        e as int
    } else {
        store.len() as int
    };
    let lo = if b <= hi {
        b as int
    } else {
        hi
    };
    store.subrange(lo, hi)
}

/// The begin/end sequence numbers named by tags 7 and 16 of a resend-request
/// body, when both parse.
pub open spec fn resend_bounds_of(body: Seq<char>) -> Option<(u64, u64)> {
    match assoc_last(parse_pairs(body), seq!['7']) {
        None => Option::<(u64, u64)>::None,
        Some(bs) => match assoc_last(parse_pairs(body), seq!['1', '6']) {
            None => Option::<(u64, u64)>::None,
            Some(es) => match parse_u64_spec(bs) {
                None => Option::<(u64, u64)>::None,
                Some(b) => match parse_u64_spec(es) {
                    None => Option::<(u64, u64)>::None,
                    Some(e) => Some((b, e)),
                },
            },
        },
    }
}

/// What receiving a resend request does: a malformed range is a recovered
/// protocol violation; otherwise the stored messages in the clamped range
/// are replayed verbatim, in order, with no new sequence numbers assigned.
pub open spec fn resend_request_post(
    pre: MyFixMsgHandler,
    post: MyFixMsgHandler,
    body: Seq<char>,
) -> bool {
    match resend_bounds_of(body) {
        None => engine_unchanged(pre, post),
        Some((b, e)) => {
            &&& post.outbox_msgs() == pre.outbox_msgs() + replay_slice(pre.store_contents(), b, e)
            &&& post.seq_to_send() == pre.seq_to_send()
            &&& post.store_contents() == pre.store_contents()
            &&& post.intervals() == pre.intervals()
            &&& post.spec_is_up() == pre.spec_is_up()
            &&& post.spec_hb_interval() == pre.spec_hb_interval()
        },
    }
}

impl MyFixMsgHandler {
    /// The outbound sequence counter: the number the next send will carry.
    pub closed spec fn seq_to_send(&self) -> int {
        self.fix_status.next_seq_id_to_send as int
    }

    /// The messages sent so far, in send order.
    pub closed spec fn store_contents(&self) -> Seq<Seq<char>> {
        self.msg_store.contents()
    }

    /// The messages queued for the transport, in order.
    pub closed spec fn outbox_msgs(&self) -> Seq<Seq<char>> {
        self.outbox@.map_values(|m: ApplicationMessage| m.spec_message())
    }

    /// The interval-set events queued for the heartbeat timer, in
    /// milliseconds, in order.
    pub closed spec fn intervals(&self) -> Seq<u64> {
        self.interval_events@
    }

    /// Whether the session is up.
    pub closed spec fn spec_is_up(&self) -> bool {
        self.fix_status.status == FixSessionStatus::UP
    }

    /// The configured heartbeat interval, in seconds.
    pub closed spec fn spec_hb_interval(&self) -> u64 {
        self.fix_status.hb_interval
    }

    /// The sequence counter counts the sends: the store holds exactly one
    /// entry per sequence number assigned so far.
    pub open spec fn wf(&self) -> bool {
        0 <= self.seq_to_send() && self.store_contents().len() == self.seq_to_send()
    }

    pub fn new() -> (h: MyFixMsgHandler)
        ensures
            h.wf(),
            h.seq_to_send() == 0,
            h.store_contents() == Seq::<Seq<char>>::empty(),
            h.outbox_msgs() == Seq::<Seq<char>>::empty(),
            h.intervals() == Seq::<u64>::empty(),
            !h.spec_is_up(),
            h.spec_hb_interval() == 10u64,
    {
        let h = MyFixMsgHandler {
            fix_status: FixStatus::new(),
            msg_store: FixMsgStore::new(),
            outbox: Vec::new(),
            interval_events: Vec::new(),
        };
        proof {
            assert(h.outbox_msgs() =~= Seq::<Seq<char>>::empty());
            assert(h.intervals() =~= Seq::<u64>::empty());
        }
        h
    }

    /// Appends a message both to the store and to the transport queue.
    fn send(&mut self, message: ApplicationMessage)
        ensures
            final(self).store_contents() == old(self).store_contents().push(
                message.spec_message(),
            ),
            final(self).outbox_msgs() == old(self).outbox_msgs().push(message.spec_message()),
            final(self).seq_to_send() == old(self).seq_to_send(),
            final(self).intervals() == old(self).intervals(),
            final(self).spec_is_up() == old(self).spec_is_up(),
            final(self).spec_hb_interval() == old(self).spec_hb_interval(),
    {
        let store_message = message.clone();
        let ghost pre_outbox = self.outbox_msgs();
        self.outbox.push(message);
        self.msg_store.push(store_message);
        proof {
            assert(self.outbox_msgs() =~= pre_outbox.push(store_message.spec_message()));
        }
    }

    /// Replays a stored message to the transport queue without storing or
    /// sequencing it again.
    fn resend(&mut self, message: ApplicationMessage)
        ensures
            final(self).outbox_msgs() == old(self).outbox_msgs().push(message.spec_message()),
            final(self).store_contents() == old(self).store_contents(),
            final(self).seq_to_send() == old(self).seq_to_send(),
            final(self).intervals() == old(self).intervals(),
            final(self).spec_is_up() == old(self).spec_is_up(),
            final(self).spec_hb_interval() == old(self).spec_hb_interval(),
    {
        let ghost pre_outbox = self.outbox_msgs();
        self.outbox.push(message);
        proof {
            assert(self.outbox_msgs() =~= pre_outbox.push(message.spec_message()));
        }
    }

    /// Builds a heartbeat under the current sequence number, assigns the
    /// number, stores the message and queues it for the transport.
    fn create_and_send_heartbeat(&mut self, test_request_id: &str)
        requires
            old(self).wf(),
            old(self).seq_to_send() < i32::MAX,
        ensures
            final(self).wf(),
            heartbeat_reply_post(*old(self), *final(self), test_request_id@),
    {
        let mut hb = String::new();
        let seq = self.fix_status.next_seq_id_to_send;
        create_fix_heartbeat(&mut hb, seq, test_request_id);
        proof {
            let ts = choose|ts: Seq<char>|
                #[trigger] appended_heartbeat(
                    Seq::<char>::empty(),
                    hb@,
                    seq as nat,
                    test_request_id@,
                    ts,
                );
            assert(hb@ =~= hb_msg(seq as nat, ts, test_request_id@));
        }
        self.fix_status.next_seq_id_to_send = seq + 1;
        let msg = ApplicationMessage::new(hb);
        self.send(msg);
        proof {
            let ts = choose|ts: Seq<char>|
                #[trigger] appended_heartbeat(
                    Seq::<char>::empty(),
                    msg.spec_message(),
                    seq as nat,
                    test_request_id@,
                    ts,
                );
            assert(engine_sent(*old(self), *self, hb_msg(seq as nat, ts, test_request_id@)));
        }
    }

    /// Builds a logon under the current sequence number and heartbeat
    /// interval, assigns the number, stores and queues the message, and
    /// marks the session up.
    pub fn create_and_send_logon(&mut self)
        requires
            old(self).wf(),
            old(self).seq_to_send() < i32::MAX,
        ensures
            final(self).wf(),
            exists|ts: Seq<char>|
                is_timestamp_chars(ts) && #[trigger] engine_sent(
                    *old(self),
                    *final(self),
                    logon_msg(
                        old(self).seq_to_send() as nat,
                        ts,
                        '0',
                        old(self).spec_hb_interval() as nat,
                    ),
                ),
            final(self).spec_is_up(),
    {
        let mut logon = String::new();
        let seq = self.fix_status.next_seq_id_to_send;
        let hb = self.fix_status.hb_interval;
        create_fix_logon(&mut logon, seq, hb, EncryptMethod::NONE);
        proof {
            let ts = choose|ts: Seq<char>|
                #[trigger] appended_logon(Seq::<char>::empty(), logon@, seq as nat, hb as nat, '0', ts);
            assert(logon@ =~= logon_msg(seq as nat, ts, '0', hb as nat));
        }
        self.fix_status.next_seq_id_to_send = seq + 1;
        let msg = ApplicationMessage::new(logon);
        self.send(msg);
        self.fix_status.status = FixSessionStatus::UP;
        proof {
            let ts = choose|ts: Seq<char>|
                #[trigger] appended_logon(
                    Seq::<char>::empty(),
                    msg.spec_message(),
                    seq as nat,
                    hb as nat,
                    '0',
                    ts,
                );
            assert(engine_sent(*old(self), *self, logon_msg(seq as nat, ts, '0', hb as nat)));
        }
    }

    /// A received heartbeat needs no reply; last-seen bookkeeping is an
    /// extension point.
    #[allow(unused_variables)]
    fn on_heartbeat(&mut self, message: String)
        ensures
            engine_unchanged(*old(self), *final(self)),
    {
    }

    /// Answers a test request with a heartbeat that echoes the correlation
    /// id carried in the request's tag 112 (empty when the tag is absent).
    fn on_test_request(&mut self, message: String)
        requires
            old(self).wf(),
            old(self).seq_to_send() < i32::MAX,
        ensures
            final(self).wf(),
            heartbeat_reply_post(*old(self), *final(self), test_req_id_of(message@)),
    {
        proof {
            reveal_strlit("112");
        }
        let mut fields: Vec<(String, String)> = Vec::new();
        parse_fix_message(message.as_str(), &mut fields);
        proof {
            assert(fields@.map_values(|p: (String, String)| (p.0@, p.1@)) =~= parse_pairs(
                message@,
            ));
            assert("112"@ =~= seq!['1', '1', '2']);
        }
        let trid = get_field(&fields, "112");
        match trid {
            Some(t) => {
                self.create_and_send_heartbeat(t.as_str());
            },
            None => {
                proof {
                    reveal_strlit("");
                    assert(""@ =~= Seq::<char>::empty());
                }
                self.create_and_send_heartbeat("");
            },
        }
    }

    /// A timer alarm: emits one heartbeat with an empty test-request-id.
    pub fn on_alarm(&mut self)
        requires
            old(self).wf(),
            old(self).seq_to_send() < i32::MAX,
        ensures
            final(self).wf(),
            heartbeat_reply_post(*old(self), *final(self), Seq::<char>::empty()),
    {
        proof {
            reveal_strlit("");
            assert(""@ =~= Seq::<char>::empty());
        }
        self.create_and_send_heartbeat("");
    }

    /// Satisfies a resend request: replays the stored messages in the
    /// requested range, clamped to what was ever sent, in ascending order.
    fn on_resend_request(&mut self, message: String)
        requires
            old(self).wf(),
        ensures
            final(self).wf(),
            resend_request_post(*old(self), *final(self), message@),
    {
        proof {
            reveal_strlit("7");
            reveal_strlit("16");
        }
        let mut fields: Vec<(String, String)> = Vec::new();
        parse_fix_message(message.as_str(), &mut fields);
        proof {
            assert(fields@.map_values(|p: (String, String)| (p.0@, p.1@)) =~= parse_pairs(
                message@,
            ));
            assert("7"@ =~= seq!['7']);
            assert("16"@ =~= seq!['1', '6']);
        }
        let begin_field = get_field(&fields, "7");
        let end_field = get_field(&fields, "16");
        match (begin_field, end_field) {
            (Some(bs), Some(es)) => {
                let b_parsed = parse_u64(bs.as_str());
                let e_parsed = parse_u64(es.as_str());
                match (b_parsed, e_parsed) {
                    (Some(b), Some(e)) => {
                        let len = self.msg_store.len();
                        let hi: usize = if e <= len as u64 {
                            e as usize
                        } else {
                            len
                        };
                        let lo: usize = if b <= hi as u64 {
                            b as usize
                        } else {
                            hi
                        };
                        let ghost pre = *self;
                        let mut idx: usize = lo;
                        while idx < hi
                            invariant
                                pre.wf(),
                                lo <= idx <= hi <= pre.store_contents().len(),
                                *old(self) == pre,
                                self.wf() == pre.wf(),
                                self.store_contents() == pre.store_contents(),
                                self.seq_to_send() == pre.seq_to_send(),
                                self.intervals() == pre.intervals(),
                                self.spec_is_up() == pre.spec_is_up(),
                                self.spec_hb_interval() == pre.spec_hb_interval(),
                                self.outbox_msgs() == pre.outbox_msgs()
                                    + pre.store_contents().subrange(lo as int, idx as int),
                            decreases hi - idx,
                        {
                            proof {
                                assert(idx < pre.seq_to_send() <= i32::MAX);
                            }
                            let m = self.msg_store.get_single(idx as i32).clone();
                            self.resend(m);
                            proof {
                                assert(pre.store_contents().subrange(lo as int, idx + 1)
                                    =~= pre.store_contents().subrange(lo as int, idx as int).push(
                                    pre.store_contents()[idx as int],
                                ));
                                assert(pre.outbox_msgs() + pre.store_contents().subrange(
                                    lo as int,
                                    idx + 1,
                                ) =~= (pre.outbox_msgs() + pre.store_contents().subrange(
                                    lo as int,
                                    idx as int,
                                )).push(pre.store_contents()[idx as int]));
                            }
                            idx = idx + 1;
                        }
                        proof {
                            assert(self.outbox_msgs() == pre.outbox_msgs() + replay_slice(
                                pre.store_contents(),
                                b,
                                e,
                            ));
                        }
                    },
                    _ => {
                        proof {
                            assert(engine_unchanged(*old(self), *self));
                        }
                    },
                }
            },
            _ => {
                proof {
                    assert(engine_unchanged(*old(self), *self));
                }
            },
        }
    }

    /// Handles a received logon: stores and forwards the learned heartbeat
    /// interval, and when the session was down, replies with its own logon
    /// and comes up. A malformed or unrepresentable interval rejects the
    /// logon as a recovered protocol violation.
    fn on_logon_request(&mut self, message: String)
        requires
            old(self).wf(),
            old(self).seq_to_send() < i32::MAX,
        ensures
            final(self).wf(),
            logon_request_post(*old(self), *final(self), message@),
    {
        proof {
            reveal_strlit("108");
        }
        let mut fields: Vec<(String, String)> = Vec::new();
        parse_fix_message(message.as_str(), &mut fields);
        proof {
            assert(fields@.map_values(|p: (String, String)| (p.0@, p.1@)) =~= parse_pairs(
                message@,
            ));
            assert("108"@ =~= seq!['1', '0', '8']);
        }
        let hb_field = get_field(&fields, "108");
        match hb_field {
            None => {},
            Some(hbs) => {
                match parse_u64(hbs.as_str()) {
                    None => {},
                    Some(heartbeat_interval) => {
                        if heartbeat_interval > u64::MAX / 1000 {
                            return ;
                        }
                        self.fix_status.hb_interval = heartbeat_interval;
                        let ghost pre_intervals = self.intervals();
                        self.interval_events.push(heartbeat_interval * 1000);
                        proof {
                            assert(self.intervals() =~= pre_intervals.push(
                                (heartbeat_interval * 1000) as u64,
                            ));
                        }
                        if self.fix_status.status == FixSessionStatus::DOWN {
                            self.create_and_send_logon();
                        }
                    },
                }
            },
        }
    }

    /// Classifies one decoded message by type and drives the corresponding
    /// transition: logon, test request, heartbeat, sequence reset
    /// (acknowledged only), resend request; unknown types change nothing.
    pub fn handle_fix_message(&mut self, msg: &FixMessage)
        requires
            old(self).wf(),
            old(self).seq_to_send() < i32::MAX,
        ensures
            final(self).wf(),
            msg.spec_msg_type() == 'A' ==> logon_request_post(
                *old(self),
                *final(self),
                msg.spec_body(),
            ),
            msg.spec_msg_type() == '1' ==> heartbeat_reply_post(
                *old(self),
                *final(self),
                test_req_id_of(msg.spec_body()),
            ),
            msg.spec_msg_type() == '2' ==> resend_request_post(
                *old(self),
                *final(self),
                msg.spec_body(),
            ),
            msg.spec_msg_type() == '0' || msg.spec_msg_type() == '4' ==> engine_unchanged(
                *old(self),
                *final(self),
            ),
            msg.spec_msg_type() != 'A' && msg.spec_msg_type() != '1' && msg.spec_msg_type() != '2'
                && msg.spec_msg_type() != '0' && msg.spec_msg_type() != '4' ==> engine_unchanged(
                *old(self),
                *final(self),
            ),
    {
        let mt = msg.get_msg_type();
        if mt == MsgType::Logon.value() {
            self.on_logon_request(msg.get_body());
        } else if mt == MsgType::TestRequest.value() {
            self.on_test_request(msg.get_body());
        } else if mt == MsgType::HeartBeat.value() {
            self.on_heartbeat(msg.get_body());
        } else if mt == MsgType::SequenceReset.value() {
        } else if mt == MsgType::ResendRequest.value() {
            self.on_resend_request(msg.get_body());
        } else {
        }
    }

    /// Hands the next queued outbound message to the caller, in queue order.
    pub fn pop_outbound(&mut self) -> (r: Option<ApplicationMessage>)
        ensures
            old(self).outbox_msgs().len() == 0 ==> r is None && engine_unchanged(
                *old(self),
                *final(self),
            ),
            old(self).outbox_msgs().len() > 0 ==> (r matches Some(m)
                && m.spec_message() == old(self).outbox_msgs()[0]
                && final(self).outbox_msgs() == old(self).outbox_msgs().drop_first()),
            final(self).store_contents() == old(self).store_contents(),
            final(self).seq_to_send() == old(self).seq_to_send(),
            final(self).intervals() == old(self).intervals(),
            final(self).spec_is_up() == old(self).spec_is_up(),
            final(self).spec_hb_interval() == old(self).spec_hb_interval(),
            final(self).wf() == old(self).wf(),
    {
        if self.outbox.len() == 0 {
            None
        } else {
            let ghost pre_outbox = self.outbox_msgs();
            let m = self.outbox.remove(0);
            proof {
                assert(self.outbox_msgs() =~= pre_outbox.drop_first());
            }
            Some(m)
        }
    }

    /// Hands the next queued interval-set event (milliseconds) to the
    /// caller, in queue order.
    pub fn pop_interval_event(&mut self) -> (r: Option<u64>)
        ensures
            old(self).intervals().len() == 0 ==> r is None && engine_unchanged(
                *old(self),
                *final(self),
            ),
            old(self).intervals().len() > 0 ==> r == Some(old(self).intervals()[0])
                && final(self).intervals() == old(self).intervals().drop_first(),
            final(self).store_contents() == old(self).store_contents(),
            final(self).seq_to_send() == old(self).seq_to_send(),
            final(self).outbox_msgs() == old(self).outbox_msgs(),
            final(self).spec_is_up() == old(self).spec_is_up(),
            final(self).spec_hb_interval() == old(self).spec_hb_interval(),
            final(self).wf() == old(self).wf(),
    {
        if self.interval_events.len() == 0 {
            None
        } else {
            let ghost pre = self.intervals();
            let v = self.interval_events.remove(0);
            proof {
                assert(self.intervals() =~= pre.drop_first());
            }
            Some(v)
        }
    }

    /// The sequence number the next send will carry.
    pub fn next_outbound_seq(&self) -> (r: i32)
        ensures
            r == self.seq_to_send(),
    {
        self.fix_status.next_seq_id_to_send
    }

    /// Whether the session is up.
    pub fn is_up(&self) -> (r: bool)
        ensures
            r == self.spec_is_up(),
    {
        self.fix_status.status == FixSessionStatus::UP
    }

    /// How many messages have been sent and stored.
    pub fn store_len(&self) -> (n: usize)
        ensures
            n == self.store_contents().len(),
    {
        self.msg_store.len()
    }
}

/// Folding a run of consecutive sends over the store and the sequence
/// counter.
pub open spec fn sends_fold(store: Seq<Seq<char>>, seq: int, msgs: Seq<Seq<char>>) -> (
    Seq<Seq<char>>,
    int,
)
    decreases msgs.len(),
{
    if msgs.len() == 0 {
        (store, seq)
    } else {
        sends_fold(store.push(msgs[0]), seq + 1, msgs.drop_first())
    }
}

/// After N consecutive successful sends the outbound sequence number has
/// increased by exactly N and the store has gained exactly the N messages,
/// in send order.
pub proof fn lemma_consecutive_sends(store: Seq<Seq<char>>, seq: int, msgs: Seq<Seq<char>>)
    ensures
        sends_fold(store, seq, msgs).0 == store + msgs,
        sends_fold(store, seq, msgs).1 == seq + msgs.len(),
    decreases msgs.len(),
{
    if msgs.len() == 0 {
        assert(store + msgs =~= store);
    } else {
        lemma_consecutive_sends(store.push(msgs[0]), seq + 1, msgs.drop_first());
        assert(store.push(msgs[0]) + msgs.drop_first() =~= store + msgs);
    }
}

/// Application-level callbacks an order-flow handler implements; the
/// business messages behind them are an open extension point.
pub trait FixMsgHandler {
    fn on_new_order_single(&mut self);

    fn on_accepted(&mut self);

    fn on_acknowledged(&mut self);

    fn on_cancel_request(&mut self);

    fn on_cancel_accepted(&mut self);

    fn on_cancel_rejected(&mut self);

    fn on_cxl_replace_request(&mut self);

    fn on_cxl_replace_accepted(&mut self);

    fn on_cxl_replace_rejected(&mut self);

    fn on_execution_report(&mut self);
}

} // verus!
