//! The session-level tags that header, trailer and administrative message
//! construction needs, each paired with its declared value domain.

use vstd::prelude::*;
use crate::value_types::{FixTag, ValueType};
use crate::value_types;

verus! {

pub fn begin_string() -> (t: FixTag)
    ensures
        t.spec_id() == seq!['8'],
        t.spec_datatype() == value_types::STRING,
{
    proof {
        reveal_strlit("8");
    }
    let t = FixTag::new("8", value_types::STRING);
    proof {
        assert(t.spec_id() =~= seq!['8']);
    }
    t
}

pub fn body_length() -> (t: FixTag)
    ensures
        t.spec_id() == seq!['9'],
        t.spec_datatype() == value_types::LENGTH,
{
    proof {
        reveal_strlit("9");
    }
    let t = FixTag::new("9", value_types::LENGTH);
    proof {
        assert(t.spec_id() =~= seq!['9']);
    }
    t
}

pub fn check_sum() -> (t: FixTag)
    ensures
        t.spec_id() == seq!['1', '0'],
        t.spec_datatype() == value_types::STRING,
{
    proof {
        reveal_strlit("10");
    }
    let t = FixTag::new("10", value_types::STRING);
    proof {
        assert(t.spec_id() =~= seq!['1', '0']);
    }
    t
}

pub fn msg_type() -> (t: FixTag)
    ensures
        t.spec_id() == seq!['3', '5'],
        t.spec_datatype() == value_types::STRING,
{
    proof {
        reveal_strlit("35");
    }
    let t = FixTag::new("35", value_types::STRING);
    proof {
        assert(t.spec_id() =~= seq!['3', '5']);
    }
    t
}

pub fn msg_seq_no() -> (t: FixTag)
    ensures
        t.spec_id() == seq!['3', '4'],
        t.spec_datatype() == value_types::SEQ_NO,
{
    proof {
        reveal_strlit("34");
    }
    let t = FixTag::new("34", value_types::SEQ_NO);
    proof {
        assert(t.spec_id() =~= seq!['3', '4']);
    }
    t
}

pub fn sender_comp_id() -> (t: FixTag)
    ensures
        t.spec_id() == seq!['4', '9'],
        t.spec_datatype() == value_types::STRING,
{
    proof {
        reveal_strlit("49");
    }
    let t = FixTag::new("49", value_types::STRING);
    proof {
        assert(t.spec_id() =~= seq!['4', '9']);
    }
    t
}

pub fn target_comp_id() -> (t: FixTag)
    ensures
        t.spec_id() == seq!['5', '6'],
        t.spec_datatype() == value_types::STRING,
{
    proof {
        reveal_strlit("56");
    }
    let t = FixTag::new("56", value_types::STRING);
    proof {
        assert(t.spec_id() =~= seq!['5', '6']);
    }
    t
}

pub fn sending_time() -> (t: FixTag)
    ensures
        t.spec_id() == seq!['5', '2'],
        t.spec_datatype() == value_types::UTC_TIMESTAMP,
{
    proof {
        reveal_strlit("52");
    }
    let t = FixTag::new("52", value_types::UTC_TIMESTAMP);
    proof {
        assert(t.spec_id() =~= seq!['5', '2']);
    }
    t
}

pub fn test_req_id() -> (t: FixTag)
    ensures
        t.spec_id() == seq!['1', '1', '2'],
        t.spec_datatype() == value_types::STRING,
{
    proof {
        reveal_strlit("112");
    }
    let t = FixTag::new("112", value_types::STRING);
    proof {
        assert(t.spec_id() =~= seq!['1', '1', '2']);
    }
    t
}

pub fn encrypt_method() -> (t: FixTag)
    ensures
        t.spec_id() == seq!['9', '8'],
        t.spec_datatype() == value_types::INT,
{
    proof {
        reveal_strlit("98");
    }
    let t = FixTag::new("98", value_types::INT);
    proof {
        assert(t.spec_id() =~= seq!['9', '8']);
    }
    t
}

pub fn heartbt_int() -> (t: FixTag)
    ensures
        t.spec_id() == seq!['1', '0', '8'],
        t.spec_datatype() == value_types::INT,
{
    proof {
        reveal_strlit("108");
    }
    let t = FixTag::new("108", value_types::INT);
    proof {
        assert(t.spec_id() =~= seq!['1', '0', '8']);
    }
    t
}

pub fn begin_seq_no() -> (t: FixTag)
    ensures
        t.spec_id() == seq!['7'],
        t.spec_datatype() == value_types::SEQ_NO,
{
    proof {
        reveal_strlit("7");
    }
    let t = FixTag::new("7", value_types::SEQ_NO);
    proof {
        assert(t.spec_id() =~= seq!['7']);
    }
    t
}

pub fn end_seq_no() -> (t: FixTag)
    ensures
        t.spec_id() == seq!['1', '6'],
        t.spec_datatype() == value_types::SEQ_NO,
{
    proof {
        reveal_strlit("16");
    }
    let t = FixTag::new("16", value_types::SEQ_NO);
    proof {
        assert(t.spec_id() =~= seq!['1', '6']);
    }
    t
}

} // verus!
