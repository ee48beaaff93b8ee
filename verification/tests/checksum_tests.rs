use fix_engine::fix_msg_builder::generate_check_sum;

#[test]
fn test_generate_check_sum_0() {
    assert_eq!(
        generate_check_sum(
            "8=FIX.4.4\u{1}9=58\u{1}35=0\u{1}49=BuySide\u{1}56=SellSide\u{1}34=3\u{1}52=20190605-12:29:20.259\u{1}"
        ),
        172
    );
}

#[test]
fn test_generate_check_sum_1() {
    assert_eq!(
        generate_check_sum(
            "8=FIX.4.2\u{1}9=74\u{1}35=0\u{1}34=0\u{1}49=TEST_SENDER\u{1}56=TEST_TARGET\u{1}52=20241228-17:10:29.938\u{1}112=test\u{1}"
        ),
        57
    );
}

#[test]
fn test_generate_check_sum_2() {
    assert_eq!(
        generate_check_sum(
            "8=FIX.4.2\u{1}9=154\u{1}35=D\u{1}34=578\u{1}49=LEH_LZJ02\u{1}52=20100302-22:50:34\u{1}56=CCG\u{1}115=LZJ\u{1}11=NF0040/03022010\u{1}54=1\u{1}38=1000\u{1}55=IOC\u{1}40=2\u{1}44=49.38\u{1}59=0\u{1}1=ABC123ZYX\u{1}21=1\u{1}207=N\u{1}47=A\u{1}111=0\u{1}"
        ),
        // sum of these bytes modulo 256; the checksum definition fixes this value
        89
    );
}

#[test]
fn test_generate_check_sum_3() {
    assert_eq!(
        generate_check_sum(
            "8=FIX.4.2\u{1}9=72\u{1}35=1\u{1}49=BuySide\u{1}56=SellSide\u{1}34=2\u{1}52=20190605-16:56:17.419\u{1}112=TestReqID\u{1}"
        ),
        213
    );
}

#[test]
fn test_generate_check_sum_4() {
    assert_eq!(generate_check_sum("8=FIX.4.2\u{1}9=5\u{1}35=0\u{1}"), 161);
}

#[test]
fn checksum_of_empty_string_is_zero() {
    assert_eq!(generate_check_sum(""), 0);
}

#[test]
fn checksum_is_byte_sum_mod_256() {
    // "ab" sums to 97 + 98 = 195; a longer run of 'a' wraps around 256.
    assert_eq!(generate_check_sum("ab"), 195);
    let s = "a".repeat(300);
    assert_eq!(generate_check_sum(&s), 300 * 97 % 256);
}
